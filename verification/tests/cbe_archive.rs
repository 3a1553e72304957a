use nicaiemu::cbe::archive::{ArchiveError, CbeArchive};
use nicaiemu::cbe::resource::{ResourceEntry, ResourceType};

const SIGNATURE: [u8; 8] = [0xFE, 0xFE, 0xFE, 0xFE, 0xFE, 0xFE, 0xFE, 0xFE];

#[test]
fn test_resource_type_from_extension() {
    assert_eq!(ResourceType::from_extension("sce"), ResourceType::Scene);
    assert_eq!(ResourceType::from_extension("map"), ResourceType::TileMap);
    assert_eq!(ResourceType::from_extension("actor"), ResourceType::Actor);
    assert_eq!(ResourceType::from_extension("xse"), ResourceType::Script);
    assert_eq!(ResourceType::from_extension("gif"), ResourceType::Image);
    assert_eq!(ResourceType::from_extension("mp3"), ResourceType::Audio);
    assert_eq!(ResourceType::from_extension("wav"), ResourceType::Audio);
    assert_eq!(ResourceType::from_extension("unknown"), ResourceType::Unknown);
}

#[test]
fn audio_resources_filter_audio_entries() {
    let archive = CbeArchive::with_parts(
        "game.CBE".to_string(),
        Vec::new(),
        Vec::new(),
        vec![
            ResourceEntry::new("song.mp3".to_string(), 0, 0, 10),
            ResourceEntry::new("clip.wav".to_string(), 0, 0, 10),
            ResourceEntry::new("scene.sce".to_string(), 0, 0, 10),
        ],
    );
    assert_eq!(archive.audio_resources().len(), 2);
}

#[test]
fn test_resource_entry_creation() {
    let entry = ResourceEntry::new("test.sce".to_string(), 0, 0x1000, 0x2000);
    assert_eq!(entry.resource_type, ResourceType::Scene);
    assert_eq!(entry.extension(), Some("sce"));
    assert!(entry.is_scene());
    assert!(!entry.is_script());
}

#[test]
fn accepts_compact_single_resource_section() {
    let mut data = vec![0u8; 41];
    data[0..8].copy_from_slice(&SIGNATURE);
    data[8..12].copy_from_slice(&8u32.to_le_bytes());
    data[12..16].copy_from_slice(&1u32.to_le_bytes());
    data[16..20].copy_from_slice(&1u32.to_le_bytes());
    data[20..24].copy_from_slice(&14u32.to_le_bytes());
    data[24..28].copy_from_slice(&1u32.to_le_bytes());
    data[36] = 1;
    data[37] = b'x';
    data[38] = 0x5a;

    let sections = CbeArchive::scan_sections(&data).unwrap();
    assert_eq!(sections.len(), 1);
    assert_eq!(sections[0].resources.len(), 1);
    assert_eq!(sections[0].resources[0].name, "x");
    assert_eq!(sections[0].resources[0].offset, 38);
    assert_eq!(sections[0].resources[0].size, 1);
}

#[test]
fn accepts_native_resource_section_layout() {
    let mut data = vec![0u8; 43];
    data[0..8].copy_from_slice(&SIGNATURE);
    data[8..12].copy_from_slice(&4u32.to_le_bytes());
    data[12..16].copy_from_slice(&1u32.to_le_bytes());
    data[16..20].copy_from_slice(&20u32.to_le_bytes());
    data[20..24].copy_from_slice(&3u32.to_le_bytes());
    data[24..28].copy_from_slice(&2u32.to_le_bytes());
    data[32..36].copy_from_slice(&1u32.to_le_bytes());
    data[36..40].copy_from_slice(&[1, b'a', 1, b'b']);
    data[40..43].copy_from_slice(&[0x11, 0x22, 0x33]);

    let sections = CbeArchive::scan_sections(&data).unwrap();
    assert_eq!(sections.len(), 1);
    assert_eq!(sections[0].resources.len(), 2);
    assert_eq!(sections[0].resources[0].name, "a");
    assert_eq!(sections[0].resources[0].offset, 40);
    assert_eq!(sections[0].resources[0].size, 1);
    assert_eq!(sections[0].resources[1].name, "b");
    assert_eq!(sections[0].resources[1].offset, 41);
    assert_eq!(sections[0].resources[1].size, 2);
}

#[test]
fn classifies_audio_extensions() {
    for extension in ["mp3", "wav", "amr", "mid", "midi", "ogg"] {
        assert_eq!(ResourceType::from_extension(extension), ResourceType::Audio);
    }
}

#[test]
fn audio_entry_predicate() {
    let entry = ResourceEntry::new("song.mp3".to_string(), 0, 0, 10);
    assert!(entry.is_audio());
    assert_eq!(entry.resource_type, ResourceType::Audio);
}

#[test]
fn extension_lookup_is_case_insensitive_and_names_types() {
    assert_eq!(ResourceType::from_extension("SCE"), ResourceType::Scene);
    assert_eq!(ResourceType::from_extension("MiDi"), ResourceType::Audio);
    assert_eq!(ResourceType::TileMap.name(), "Map");
    let entry = ResourceEntry::new("archive.tar.gif".to_string(), 2, 5, 6);
    assert_eq!(entry.extension(), Some("gif"));
    assert_eq!(entry.resource_type, ResourceType::Image);
    let bare = ResourceEntry::new("README".to_string(), 0, 0, 0);
    assert_eq!(bare.extension(), None);
    assert_eq!(bare.resource_type, ResourceType::Unknown);
}

#[test]
fn archive_from_bytes_lists_resources_and_reads_them() {
    let mut data = vec![0u8; 41];
    data[0..8].copy_from_slice(&SIGNATURE);
    data[8..12].copy_from_slice(&8u32.to_le_bytes());
    data[12..16].copy_from_slice(&1u32.to_le_bytes());
    data[16..20].copy_from_slice(&1u32.to_le_bytes());
    data[20..24].copy_from_slice(&14u32.to_le_bytes());
    data[24..28].copy_from_slice(&1u32.to_le_bytes());
    data[36] = 1;
    data[37] = b'x';
    data[38] = 0x5a;
    let archive = CbeArchive::from_bytes("game.CBE".to_string(), data);
    assert_eq!(archive.sections().len(), 1);
    assert_eq!(archive.sections()[0].header.index, 0);
    assert_eq!(archive.sections()[0].header.file_offset, 0);
    assert_eq!(archive.resources().len(), 1);
    let entry = archive.find_resource("x").unwrap();
    assert_eq!(archive.read_resource_bytes(entry).unwrap(), &[0x5a]);
    assert!(archive.find_resource("y").is_none());
    let far = ResourceEntry::new("far".to_string(), 0, 40, 5);
    assert_eq!(archive.read_resource_bytes(&far), Err(ArchiveError::ResourceOutOfBounds));
    let summary = archive.summary();
    assert_eq!(summary.file_size, 41);
    assert_eq!(summary.section_count, 1);
    assert_eq!(summary.resource_count, 1);
    assert_eq!(summary.type_counts, vec![(ResourceType::Unknown, 1)]);
}

#[test]
fn section_with_wrong_marker_is_not_recognized() {
    let mut data = vec![0u8; 41];
    data[0..8].copy_from_slice(&SIGNATURE);
    data[8..12].copy_from_slice(&9u32.to_le_bytes());
    data[12..16].copy_from_slice(&1u32.to_le_bytes());
    data[16..20].copy_from_slice(&1u32.to_le_bytes());
    data[20..24].copy_from_slice(&14u32.to_le_bytes());
    data[24..28].copy_from_slice(&1u32.to_le_bytes());
    data[36] = 1;
    data[37] = b'x';
    assert!(!CbeArchive::looks_like_resource_section(&data, 0));
    assert!(CbeArchive::scan_sections(&data).unwrap().is_empty());
    assert!(CbeArchive::scan_sections(&[]).unwrap().is_empty());
}

#[test]
fn extension_of_a_name_without_a_dot_is_none() {
    assert_eq!(ResourceEntry::new("song.MID".to_string(), 0, 0, 0).extension(), Some("MID"));
    assert_eq!(ResourceEntry::new("trailing.".to_string(), 0, 0, 0).extension(), Some(""));
    assert_eq!(ResourceEntry::new("plain".to_string(), 0, 0, 0).extension(), None);
}

#[test]
fn extension_case_is_ignored() {
    for (upper, lower) in [("MP3", "mp3"), ("SCE", "sce"), ("Gif", "gif"), ("XYZ", "xyz")] {
        assert_eq!(ResourceType::from_extension(upper), ResourceType::from_extension(lower));
    }
    assert_eq!(ResourceType::from_extension("XYZ"), ResourceType::Unknown);
}
