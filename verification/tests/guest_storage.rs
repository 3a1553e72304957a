use nicaiemu::machine::packages::{flat_package_resources, grouped_package_resources, native_package_resources};
use nicaiemu::machine::virtual_fs::{normalize_path, VirtualFileSystem};

#[test]
fn parses_native_data_package_resources() {
    let mut data = vec![0u8; 39];
    data[0..4].copy_from_slice(&8u32.to_le_bytes());
    data[8..12].copy_from_slice(&1u32.to_le_bytes());
    data[12..16].copy_from_slice(&20u32.to_le_bytes());
    data[16..20].copy_from_slice(&3u32.to_le_bytes());
    data[20..24].copy_from_slice(&2u32.to_le_bytes());
    data[24..28].copy_from_slice(&0u32.to_le_bytes());
    data[28..32].copy_from_slice(&1u32.to_le_bytes());
    data[32..36].copy_from_slice(&[1, b'a', 1, b'b']);
    data[36..39].copy_from_slice(&[0x11, 0x22, 0x33]);

    let resources = native_package_resources(&data, 0);
    assert_eq!(resources.len(), 2);
    assert_eq!(resources[0].name, "a");
    assert_eq!(resources[0].data, [0x11]);
    assert_eq!(resources[1].name, "b");
    assert_eq!(resources[1].data, [0x22, 0x33]);
}

#[test]
fn parses_grouped_data_package_resources() {
    let mut data = vec![0u8; 39];
    data[0..4].copy_from_slice(&8u32.to_le_bytes());
    data[12..16].copy_from_slice(&20u32.to_le_bytes());
    data[16..20].copy_from_slice(&3u32.to_le_bytes());
    data[20..24].copy_from_slice(&2u32.to_le_bytes());
    data[24..28].copy_from_slice(&0u32.to_le_bytes());
    data[28..32].copy_from_slice(&1u32.to_le_bytes());
    data[32..36].copy_from_slice(&[1, b'a', 1, b'b']);
    data[36..39].copy_from_slice(&[0x11, 0x22, 0x33]);

    let resources = grouped_package_resources(&data, 0, data.len());
    assert_eq!(resources.len(), 2);
    assert_eq!(resources[0].name, "a");
    assert_eq!(resources[1].name, "b");
}

#[test]
fn malformed_packages_have_no_resources() {
    let mut data = vec![0u8; 39];
    data[0..4].copy_from_slice(&4u32.to_le_bytes());
    assert!(native_package_resources(&data, 0).is_empty());
    assert!(native_package_resources(&[], 0).is_empty());
    assert!(flat_package_resources(&data, 0).is_none());
    assert!(grouped_package_resources(&data, 100, 4).is_empty());
}

#[test]
fn flat_package_reports_where_it_ends() {
    let mut data = vec![0u8; 25];
    data[0..4].copy_from_slice(&16u32.to_le_bytes());
    data[4..8].copy_from_slice(&5u32.to_le_bytes());
    data[8..12].copy_from_slice(&1u32.to_le_bytes());
    data[12..16].copy_from_slice(&0u32.to_le_bytes());
    data[16..18].copy_from_slice(&[1, b'x']);
    data[20..25].copy_from_slice(&[9, 8, 7, 6, 5]);
    let (resources, end) = flat_package_resources(&data, 0).unwrap();
    assert_eq!(end, 25);
    assert_eq!(resources.len(), 1);
    assert_eq!(resources[0].name, "x");
    assert_eq!(resources[0].data, [9, 8, 7, 6, 5]);
}

#[test]
fn reads_writes_and_seeks_with_normalized_paths() {
    let mut fs = VirtualFileSystem::default();
    assert!(fs.create_directory("./\\Game\\Data"));
    let handle = fs.open("game/data/FILE.bin", "w", 0);
    assert_eq!(handle, 0);
    assert_eq!(fs.write(handle as u32, &[1, 2, 3]), Some(3));
    assert_eq!(fs.seek(handle as u32, -2, 2), Some(1));
    assert_eq!(fs.write(handle as u32, &[4]), Some(1));
    assert_eq!(fs.close(handle as u32), 0);

    let handle = fs.open("GAME\\DATA\\file.BIN", "r", 0);
    assert_eq!(fs.read(handle as u32, 8), Some(vec![1, 4, 3]));
    assert_eq!(fs.read(handle as u32, 8), Some(Vec::new()));
    assert!(fs.directory_exists("game/data"));
}

#[test]
fn rejects_paths_that_escape_the_virtual_root() {
    let mut fs = VirtualFileSystem::default();
    assert_eq!(fs.open("../outside", "w", 0), -1);
    assert!(!fs.create_directory("../../outside"));
}

#[test]
fn normalization_drops_dots_and_lowercases() {
    assert_eq!(normalize_path("A/./B/../C\\D"), Some("a/c/d".to_string()));
    assert_eq!(normalize_path(""), Some(String::new()));
    assert_eq!(normalize_path(".."), None);
}

#[test]
fn files_can_be_renamed_removed_and_sized() {
    let mut fs = VirtualFileSystem::new();
    let handle = fs.open("save.dat", "", 1);
    assert_eq!(handle, 0);
    assert_eq!(fs.write(0, &[5, 6]), Some(2));
    assert_eq!(fs.tell(0), Some(2));
    assert!(fs.rename("save.dat", "dir/SAVE2.DAT"));
    assert!(!fs.file_exists("save.dat"));
    assert!(fs.file_exists("dir/save2.dat"));
    assert_eq!(fs.size(0), Some(2));
    assert!(fs.directory_exists("dir"));
    assert_eq!(fs.file("DIR/save2.dat"), Some(&[5u8, 6][..]));
    assert_eq!(fs.file_count(), 1);
    assert!(fs.remove_file("dir/save2.dat"));
    assert!(!fs.remove_file("dir/save2.dat"));
    assert_eq!(fs.size(0), None);
    assert_eq!(fs.close(0), 0);
    assert_eq!(fs.close(0), -1);
    assert_eq!(fs.tell(0), None);
}

#[test]
fn append_mode_starts_at_the_end_and_reads_need_an_existing_file() {
    let mut fs = VirtualFileSystem::new();
    assert_eq!(fs.open("missing", "r", 0), -1);
    let h = fs.open("log", "w", 0) as u32;
    assert_eq!(fs.write(h, &[1, 2, 3]), Some(3));
    assert_eq!(fs.read(h, 1), None);
    let a = fs.open("log", "a+", 0) as u32;
    assert_eq!(fs.tell(a), Some(3));
    assert_eq!(fs.seek(a, 0, 0), Some(0));
    assert_eq!(fs.read(a, 2), Some(vec![1, 2]));
    assert_eq!(fs.seek(a, -1, 1), Some(1));
    assert_eq!(fs.seek(a, -5, 1), None);
    assert_eq!(fs.seek(a, 0, 9), None);
}
