use nicaiemu::machine::game::{bytes_equal, download_service, payment_service};
use nicaiemu::machine::memory::MachineMemory;

const RAM: u32 = 0x0200_0000;

fn memory() -> MachineMemory {
    let mut memory = MachineMemory::new(false);
    memory.map(RAM, 0x1_0000, false);
    memory
}

fn read_bytes(memory: &mut MachineMemory, address: u32, count: u32) -> Vec<u8> {
    (0..count).map(|k| memory.r8(address + k)).collect()
}

#[test]
fn download_manager_reports_no_download() {
    assert_eq!(download_service(4), u32::MAX);
    assert_eq!(download_service(0), 0);
    assert_eq!(download_service(5), 0);
}

#[test]
fn payment_identifier_fills_the_whole_buffer() {
    let mut memory = memory();
    assert_eq!(payment_service(&mut memory, 7, RAM, 32), 0);
    let mut expected = vec![b'1'; 15];
    expected.push(0);
    assert_eq!(read_bytes(&mut memory, RAM, 16), expected);
}

#[test]
fn payment_identifier_is_cut_to_the_capacity() {
    let mut memory = memory();
    memory.w8(RAM + 4, 0x55);
    assert_eq!(payment_service(&mut memory, 7, RAM, 4), 0);
    assert_eq!(read_bytes(&mut memory, RAM, 5), vec![b'1', b'1', b'1', 0, 0x55]);
}

#[test]
fn payment_ignores_other_methods_and_empty_buffers() {
    let mut memory = memory();
    memory.w8(RAM, 0x55);
    assert_eq!(payment_service(&mut memory, 6, RAM, 16), 0);
    assert_eq!(payment_service(&mut memory, 7, RAM, 0), 0);
    assert_eq!(memory.r8(RAM), 0x55);
}

#[test]
fn byte_strings_compare_by_content() {
    assert!(bytes_equal(b"abc", b"abc"));
    assert!(!bytes_equal(b"abc", b"abd"));
    assert!(!bytes_equal(b"abc", b"ab"));
    assert!(bytes_equal(b"", b""));
}
