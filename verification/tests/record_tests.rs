use legacy_assets::alm::{AlmMap, SectionKind, TileEntry, TilesSection, GeneralMapInfoSection};
use legacy_assets::byte_stream::{read_corrected_entry_count, read_u32};
use legacy_assets::data_bin::{HumanInfo, HumanRecord};
use legacy_assets::errors::DecodeError;
use legacy_assets::images::BmpSprite;
use legacy_assets::regfile::{Registry, RegistryError};
use legacy_assets::shared_types::{decode_cp866, CP866String};
use legacy_assets::wavefile::{FmtChunk, WavContent};

#[test]
fn tile_entry_unpacks_its_fields() {
    let t = TileEntry(0x2A5C);
    // high byte 0x2A: passable bit set, terrain 2
    assert!(t.is_passable());
    assert_eq!(t.get_terrain_id(), 2);
    // low byte 0x5C: column 5, row min(12, 7) for terrain 2
    assert_eq!(t.get_tile_column_id(), 5);
    assert_eq!(t.get_tile_row_id(), 7);
    let t2 = TileEntry(0x010C);
    assert!(!t2.is_passable());
    assert_eq!(t2.get_terrain_id(), 1);
    assert_eq!(t2.get_tile_row_id(), 12);
}

#[test]
fn tiles_section_reads_the_grid() {
    let info = GeneralMapInfoSection {
        width: 2,
        height: 2,
        negative_sun_angle_bits: 0,
        time_in_minutes: 0,
        darkness: 0,
        contrast: 0,
        use_tiles: 0,
        fraction_count: 0,
        structure_count: 0,
        unit_count: 0,
        logic_count: 0,
        sack_count: 0,
    };
    let bytes = vec![0x01, 0x00, 0x02, 0x00, 0x03, 0x00, 0x04, 0x00];
    let mut pos = 0usize;
    let s = TilesSection::read(&bytes, &mut pos, &info).unwrap();
    assert_eq!(s.tiles.len(), 4);
    assert_eq!(s.tiles[0].0, 1);
    assert_eq!(s.tiles[3].0, 4);
    assert_eq!(pos, 8);
}

#[test]
fn corrected_entry_count_is_one_less() {
    let bytes = vec![5, 0, 0, 0];
    let mut pos = 0usize;
    assert_eq!(read_corrected_entry_count(&bytes, &mut pos).unwrap(), 4);
    let zero = vec![0, 0, 0, 0];
    let mut pos = 0usize;
    let r = read_corrected_entry_count(&zero, &mut pos);
    assert!(matches!(r, Err(DecodeError::InvalidTag)));
}

#[test]
fn cp866_decodes_cyrillic_and_ascii() {
    assert_eq!(decode_cp866(&vec![0x41, 0x42]), "AB");
    // 0x80 is the first Cyrillic capital letter of the code page
    assert_eq!(decode_cp866(&vec![0x80]), "\u{410}");
    assert_eq!(decode_cp866(&vec![0xEF]), "\u{44F}");
    let bytes = vec![0x48, 0x69, 0x00, 0x7A];
    let mut pos = 0usize;
    let s = CP866String::read_from_stream(&bytes, &mut pos).unwrap();
    assert_eq!(s.0, "Hi");
    assert_eq!(pos, 3);
}

#[test]
fn human_row_stops_item_scan_at_unit_names() {
    // name, pad, record, one worn item, then the next row's unit-shaped name
    let mut b: Vec<u8> = Vec::new();
    b.extend_from_slice(b"Hero\0");
    b.extend_from_slice(&[9, 9]); // two skipped bytes
    for i in 0..26u32 {
        b.extend_from_slice(&(i as u32).to_le_bytes());
    }
    b.extend_from_slice(b"sword\0");
    b.extend_from_slice(b"M3_x\0");
    let mut pos = 0usize;
    let h = HumanInfo::read_from_stream(&b, &mut pos).unwrap();
    assert_eq!(h.name.0, "Hero");
    assert_eq!(h.details.body, 0);
    assert_eq!(h.details.known_spells, 25);
    assert_eq!(h.items_wearing.len(), 1);
    assert_eq!(h.items_wearing[0].0, "sword");
}

#[test]
fn human_record_layout() {
    let mut b: Vec<u8> = Vec::new();
    for i in 0..26u32 {
        b.extend_from_slice(&(100 + i).to_le_bytes());
    }
    let mut pos = 0usize;
    let r = HumanRecord::read_from_stream(&b, &mut pos).unwrap();
    assert_eq!(r.body, 100);
    assert_eq!(r.reaction, 101);
    assert_eq!(r.known_spells, 125);
    assert_eq!(pos, 104);
}

#[test]
fn wav_write_read_round_trip() {
    let w = WavContent {
        fmt: FmtChunk {
            format: 1,
            channels: 2,
            sampling_rate: 22050,
            data_rate: 44100,
            bytes_per_sample: 2,
            bits_per_sample: 16,
        },
        data: vec![1, 2, 3, 0xFFFF],
    };
    let bytes = w.write().unwrap();
    assert_eq!(bytes.len(), 44 + 8);
    let back = WavContent::read(&bytes).unwrap();
    assert_eq!(back.fmt, w.fmt);
    assert_eq!(back.data, w.data);
}

#[test]
fn wav_bad_signature_is_rejected() {
    let r = WavContent::read(&vec![0u8; 64]);
    assert!(matches!(r, Err(DecodeError::InvalidTag)));
}

#[test]
fn registry_signature_is_checked() {
    let r = Registry::read_from_bytes(&vec![0u8; 64]);
    assert!(matches!(r, Err(RegistryError::IncorrectSignature)));
    let r2 = Registry::read_from_bytes(&vec![0u8; 4]);
    assert!(matches!(r2, Err(RegistryError::Truncated)));
}

#[test]
fn registry_reads_a_root_int() {
    let mut b = vec![0u8; 0x18 + 0x30];
    b[0..4].copy_from_slice(&0x3141_5926u32.to_le_bytes());
    b[4..8].copy_from_slice(&0u32.to_le_bytes()); // root offset
    b[8..12].copy_from_slice(&1u32.to_le_bytes()); // root size
    b[16..20].copy_from_slice(&0u32.to_le_bytes()); // allocation table size
    // one node record at 0x18: skipped word, data0, data1, tag, name
    b[0x18 + 4..0x18 + 8].copy_from_slice(&42u32.to_le_bytes());
    b[0x18 + 12..0x18 + 16].copy_from_slice(&2u32.to_le_bytes()); // int tag
    b[0x18 + 16] = b'x';
    let reg = Registry::read_from_bytes(&b).unwrap();
    assert_eq!(reg.get_int(&"x".to_string()).unwrap(), 42);
    assert!(matches!(
        reg.get_int(&"y".to_string()),
        Err(RegistryError::NonExistentIntValue)
    ));
    let all = reg.list_all();
    assert_eq!(all.ints.len(), 1);
}

#[test]
fn bmp_without_magic_is_not_supported() {
    let r = BmpSprite::read_from(&vec![0u8; 64]).unwrap();
    assert!(matches!(r, BmpSprite::NotSupported));
}

#[test]
fn alm_requires_general_section_first() {
    let mut b = vec![0u8; 60];
    // container header: section count 1
    b[12..16].copy_from_slice(&1u32.to_le_bytes());
    // first section header at 20 with kind tiles (wrong)
    b[20 + 12..20 + 16].copy_from_slice(&(SectionKind::Tiles as u32 + 0).to_le_bytes());
    let r = AlmMap::read(&b);
    assert!(r.is_err());
    // kind general but body truncated short of 48 bytes
    let mut b2 = vec![0u8; 60];
    b2[12..16].copy_from_slice(&1u32.to_le_bytes());
    b2[20 + 12..20 + 16].copy_from_slice(&0u32.to_le_bytes());
    let r2 = AlmMap::read(&b2);
    assert!(matches!(r2, Err(DecodeError::UnexpectedEnd)));
}

#[test]
fn alm_reads_the_general_section() {
    let mut b = vec![0u8; 88];
    b[12..16].copy_from_slice(&1u32.to_le_bytes());
    b[28..32].copy_from_slice(&48u32.to_le_bytes()); // data size
    // general section body at 40
    b[40..44].copy_from_slice(&7u32.to_le_bytes()); // width
    b[44..48].copy_from_slice(&9u32.to_le_bytes()); // height
    let m = AlmMap::read(&b).unwrap();
    assert_eq!(m.general_info.width, 7);
    assert_eq!(m.general_info.height, 9);
    assert!(m.tiles.is_none());
}

#[test]
fn le_words_read_little_endian() {
    let bytes = vec![0x78, 0x56, 0x34, 0x12];
    let mut pos = 0usize;
    assert_eq!(read_u32(&bytes, &mut pos).unwrap(), 0x1234_5678);
}
