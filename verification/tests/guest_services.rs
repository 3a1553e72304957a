use nicaiemu::machine::files::handle_file_service;
use nicaiemu::machine::heap::{GuestHeap, HEAP_BASE, MEMORY_BLOCK_POOL};
use nicaiemu::machine::memory::MachineMemory;
use nicaiemu::machine::screens::{ScreenState, SCREEN_IS_IN_QUIT};
use nicaiemu::machine::services::{
    handle_memory_block_service, handle_memory_service, handle_system_service,
    read_length_prefixed_string, MEMORY_BLOCK_PTR, MEMORY_BLOCK_SERVICE,
};
use nicaiemu::machine::stdio::{format_c_string_from, handle_stdio_service, ServiceRegisters};
use nicaiemu::machine::strings::{handle_ucs2_service, read_c_bytes, ucs2_len};
use nicaiemu::machine::tables::{
    handle_app_store_service, handle_fixed_manager_init, handle_root_service, populate_table,
    return_from_service, route_service, ServiceRoute, APP_STORE_MANAGER, DL_LOAD_MANAGER,
    MANAGER_BASE, TABLE_STRIDE,
};
use nicaiemu::machine::timers::{GuestTimers, TIMER_BASE_ID};
use nicaiemu::machine::virtual_fs::VirtualFileSystem;

const RAM: u32 = 0x0200_0000;

fn memory() -> MachineMemory {
    let mut memory = MachineMemory::new(false);
    memory.map(RAM, 0x1_0000, false);
    memory.map(HEAP_BASE, 0x100_0000, false);
    memory.map(MANAGER_BASE, 0x10_0000, false);
    memory
}

fn put_bytes(memory: &mut MachineMemory, address: u32, bytes: &[u8]) {
    assert!(memory.write_bytes(address, bytes));
}

fn put_wide(memory: &mut MachineMemory, address: u32, text: &str) {
    for (i, unit) in text.encode_utf16().chain([0]).enumerate() {
        memory.w16(address + 2 * i as u32, unit);
    }
}

fn registers(r0: u32, r1: u32, r2: u32, r3: u32, sp: u32) -> ServiceRegisters {
    ServiceRegisters { r0, r1, r2, r3, sp }
}

#[test]
fn heap_allocations_are_aligned_reused_and_coalesced() {
    let mut heap = GuestHeap::new();
    assert_eq!(heap.allocate(0), 0);
    let a = heap.allocate(5);
    let b = heap.allocate(16);
    let c = heap.allocate(1);
    assert_eq!((a, b, c), (HEAP_BASE, HEAP_BASE + 8, HEAP_BASE + 24));
    assert_eq!(heap.cursor(), HEAP_BASE + 32);

    heap.deallocate(a);
    heap.deallocate(b);
    // The two freed neighbours merged into one 24-byte block.
    assert_eq!(heap.allocate(24), HEAP_BASE);
    heap.deallocate(HEAP_BASE + 4);
    assert_eq!(heap.allocate(8), HEAP_BASE + 32);
}

#[test]
fn heap_splits_a_larger_free_block_and_refuses_past_the_pool() {
    let mut heap = GuestHeap::new();
    let a = heap.allocate(64);
    let _b = heap.allocate(8);
    heap.deallocate(a);
    assert_eq!(heap.allocate(16), a);
    assert_eq!(heap.allocate(16), a + 16);
    assert_eq!(heap.allocate(MEMORY_BLOCK_POOL - HEAP_BASE), 0);
    assert_eq!(heap.allocate(u32::MAX), 0);
}

#[test]
fn memory_services_store_addresses_and_manage_blocks() {
    let mut heap = GuestHeap::new();
    let mut memory = memory();
    // Allocate at least two bytes and store the address.
    assert_eq!(handle_memory_service(&mut heap, &mut memory, 2, RAM, 0), 1);
    assert_eq!(memory.r32(RAM), HEAP_BASE);
    // Free through the stored address.
    assert_eq!(handle_memory_service(&mut heap, &mut memory, 3, RAM, 0), 0);
    assert_eq!(memory.r32(RAM), 0);
    assert_eq!(handle_memory_service(&mut heap, &mut memory, 13, 3, 0), HEAP_BASE);

    // The system block is set up on first use.
    let first = handle_memory_service(&mut heap, &mut memory, 12, 6, 0);
    assert_eq!(first, MEMORY_BLOCK_POOL);
    assert_eq!(memory.r32(MEMORY_BLOCK_PTR + 4), 8);
    assert_eq!(memory.r32(MEMORY_BLOCK_PTR + 12), MEMORY_BLOCK_SERVICE);
    assert_eq!(handle_memory_service(&mut heap, &mut memory, 12, 4, 0), MEMORY_BLOCK_POOL + 8);
    // Resetting rewinds the block.
    assert_eq!(handle_memory_service(&mut heap, &mut memory, 10, 0, 0), MEMORY_BLOCK_PTR);
    assert_eq!(memory.r32(MEMORY_BLOCK_PTR + 4), 0);
    assert_eq!(handle_memory_service(&mut heap, &mut memory, 8, 0, 0), MEMORY_BLOCK_PTR);
    assert_eq!(handle_memory_service(&mut heap, &mut memory, 99, 0, 0), 0);
}

#[test]
fn memory_blocks_hand_out_room_until_full_then_release() {
    let mut heap = GuestHeap::new();
    let mut memory = memory();
    let block = RAM + 0x100;
    assert_eq!(handle_memory_service(&mut heap, &mut memory, 5, block, 12), block);
    let base = memory.r32(block);
    assert_eq!(handle_memory_block_service(&mut heap, &mut memory, 0, block, 6), base);
    assert_eq!(handle_memory_block_service(&mut heap, &mut memory, 0, block, 4), base + 8);
    assert_eq!(handle_memory_block_service(&mut heap, &mut memory, 0, block, 1), 0);
    assert_eq!(handle_memory_block_service(&mut heap, &mut memory, 1, block, 0), block);
    assert_eq!(handle_memory_block_service(&mut heap, &mut memory, 2, block, 0), 0);
    assert_eq!(memory.r32(block), 0);
    assert_eq!(memory.r32(block + 8), 0);
    // The heap block went back to the heap.
    assert_eq!(heap.allocate(16), base);
}

#[test]
fn ucs2_services_measure_copy_append_and_compare() {
    let mut memory = memory();
    put_wide(&mut memory, RAM, "abc");
    put_wide(&mut memory, RAM + 0x100, "de");
    assert_eq!(handle_ucs2_service(&mut memory, 0, RAM, 0, 0), 3);
    assert_eq!(handle_ucs2_service(&mut memory, 2, RAM, RAM + 0x100, 0), RAM);
    assert_eq!(ucs2_len(&mut memory, RAM, 0x8000), 5);
    assert_eq!(memory.r16(RAM + 8), u16::from(b'e'));
    assert_eq!(handle_ucs2_service(&mut memory, 1, RAM + 0x200, RAM, 0), RAM + 0x200);
    assert_eq!(handle_ucs2_service(&mut memory, 8, RAM, RAM + 0x200, 0), 0);
    put_wide(&mut memory, RAM + 0x300, "ABCDE");
    assert_eq!(handle_ucs2_service(&mut memory, 8, RAM, RAM + 0x300, 0), 0x20);
    assert_eq!(handle_ucs2_service(&mut memory, 9, RAM, RAM + 0x300, 0), 0);
    assert_eq!(handle_ucs2_service(&mut memory, 10, RAM, RAM + 0x300, 0), 0);
    assert_eq!(handle_ucs2_service(&mut memory, 7, RAM, u32::from(b'c'), 0), RAM + 4);
    assert_eq!(handle_ucs2_service(&mut memory, 7, RAM, u32::from(b'z'), 0), 0);
}

#[test]
fn ucs2_services_widen_and_convert_narrow_strings() {
    let mut memory = memory();
    put_bytes(&mut memory, RAM, b"hi\0xx");
    // Widening with terminator handling zeroes the rest of the count.
    assert_eq!(handle_ucs2_service(&mut memory, 5, RAM + 0x100, RAM, 5), RAM + 0x100);
    assert_eq!(memory.r16(RAM + 0x100), u16::from(b'h'));
    assert_eq!(memory.r16(RAM + 0x106), 0);
    // GBK text (two CJK characters) becomes UCS-2.
    put_bytes(&mut memory, RAM + 0x40, &[0xC4, 0xE3, 0xBA, 0xC3, 0]);
    assert_eq!(handle_ucs2_service(&mut memory, 3, RAM + 0x200, RAM + 0x40, 0), RAM + 0x200);
    assert_eq!(memory.r16(RAM + 0x200), 0x4F60);
    assert_eq!(memory.r16(RAM + 0x202), 0x597D);
    assert_eq!(memory.r16(RAM + 0x204), 0);
}

#[test]
fn stdio_services_cover_the_c_string_functions() {
    let mut memory = memory();
    put_bytes(&mut memory, RAM, b"hello\0");
    let regs = |r0, r1, r2| registers(r0, r1, r2, 0, RAM + 0x800);
    assert_eq!(handle_stdio_service(&mut memory, 1, regs(RAM, 0, 0), 0), Some(5));
    assert_eq!(handle_stdio_service(&mut memory, 8, regs(RAM + 0x40, RAM, 0), 0), Some(RAM + 0x40));
    put_bytes(&mut memory, RAM + 0x80, b" world\0");
    assert_eq!(handle_stdio_service(&mut memory, 9, regs(RAM + 0x40, RAM + 0x80, 0), 0), Some(RAM + 0x40));
    assert_eq!(read_c_bytes(&mut memory, RAM + 0x40, 64), b"hello world");
    assert_eq!(handle_stdio_service(&mut memory, 14, regs(RAM, RAM + 0x40, 0), 0), Some((-32i32) as u32));
    assert_eq!(handle_stdio_service(&mut memory, 16, regs(RAM, RAM + 0x80, 3), 0), Some((b'h' - b' ') as u32));
    put_bytes(&mut memory, RAM + 0xC0, b"HELLO\0");
    assert_eq!(handle_stdio_service(&mut memory, 20, regs(RAM, RAM + 0xC0, 0), 0), Some(0));
    assert_eq!(handle_stdio_service(&mut memory, 2, regs(RAM + 0x100, 0x41, 3), 0), Some(RAM + 0x100));
    assert_eq!(read_c_bytes(&mut memory, RAM + 0x100, 8), b"AAA");
    assert_eq!(handle_stdio_service(&mut memory, 5, regs(0, 0, 0), 0x1_0000_0007), Some(7));
    assert_eq!(handle_stdio_service(&mut memory, 13, regs(0, 0, 0), 0), None);
}

#[test]
fn stdio_atoi_trims_and_falls_back_to_zero() {
    let mut memory = memory();
    let regs = |r0| registers(r0, 0, 0, 0, 0);
    put_bytes(&mut memory, RAM, b"  -42 \0");
    assert_eq!(handle_stdio_service(&mut memory, 10, regs(RAM), 0), Some((-42i32) as u32));
    put_bytes(&mut memory, RAM, b"12ab\0");
    assert_eq!(handle_stdio_service(&mut memory, 12, regs(RAM), 0), Some(0));
    put_bytes(&mut memory, RAM, b"+7\0");
    assert_eq!(handle_stdio_service(&mut memory, 10, regs(RAM), 0), Some(7));
}

#[test]
fn sprintf_formats_registers_then_stack_arguments() {
    let mut memory = memory();
    let sp = RAM + 0x800;
    memory.w32(sp, 0xFFFF_FFFE);
    memory.w32(sp + 4, RAM + 0x400);
    put_bytes(&mut memory, RAM + 0x400, b"ok\0");
    put_bytes(&mut memory, RAM, b"%03d|%x|%i|%s|%%|%5u|%q\0");
    let regs = registers(RAM + 0x100, RAM, 7, 0xAB, sp);
    assert_eq!(handle_stdio_service(&mut memory, 3, regs, 0), Some(RAM + 0x100));
    assert_eq!(
        read_c_bytes(&mut memory, RAM + 0x100, 256),
        b"007|ab|-2|ok|%|    0|%q"
    );
    let format = b"%lX %c".to_vec();
    let regs = registers(0, 0, 0xBEEF, 0x41, sp);
    assert_eq!(format_c_string_from(&mut memory, &format, regs, 2), b"BEEF A");
    let cut = b"abc%08".to_vec();
    assert_eq!(format_c_string_from(&mut memory, &cut, regs, 2), b"abc");
}

#[test]
fn file_services_round_trip_through_the_virtual_file_system() {
    let mut memory = memory();
    let mut fs = VirtualFileSystem::new();
    put_bytes(&mut memory, RAM, b"save/slot.dat\0");
    put_bytes(&mut memory, RAM + 0x40, b"wb\0");
    let handle = handle_file_service(&mut fs, &mut memory, 0, registers(0, RAM, RAM + 0x40, 0, 0));
    assert_ne!(handle, u32::MAX);
    put_bytes(&mut memory, RAM + 0x80, b"DATA");
    assert_eq!(handle_file_service(&mut fs, &mut memory, 5, registers(RAM + 0x80, 4, handle, 0, 0)), 4);
    assert_eq!(handle_file_service(&mut fs, &mut memory, 7, registers(handle, 0, 0, 0, 0)), 4);
    assert_eq!(handle_file_service(&mut fs, &mut memory, 1, registers(handle, 0, 0, 0, 0)), 0);
    assert_eq!(handle_file_service(&mut fs, &mut memory, 2, registers(0, RAM, 0, 0, 0)), 1);
    // The same path given as a UCS-2 string.
    put_wide(&mut memory, RAM + 0x200, "save/slot.dat");
    put_bytes(&mut memory, RAM + 0x40, b"rb\0");
    let handle = handle_file_service(&mut fs, &mut memory, 0, registers(0, RAM + 0x200, RAM + 0x40, 0, 0));
    assert_eq!(handle_file_service(&mut fs, &mut memory, 8, registers(handle, 0, 0, 0, 0)), 4);
    assert_eq!(handle_file_service(&mut fs, &mut memory, 4, registers(RAM + 0x300, 16, handle, 0, 0)), 4);
    assert_eq!(read_c_bytes(&mut memory, RAM + 0x300, 4), b"DATA");
    assert_eq!(handle_file_service(&mut fs, &mut memory, 3, registers(0, RAM + 0x200, 0, 0, 0)), 0);
    assert_eq!(handle_file_service(&mut fs, &mut memory, 16, registers(0, 0, 0, 0, 0)), 64 * 1024 * 1024);
    assert_eq!(handle_file_service(&mut fs, &mut memory, 4, registers(0, 0x100_0001, handle, 0, 0)), u32::MAX);
    assert_eq!(handle_file_service(&mut fs, &mut memory, 9, registers(0, RAM, 0, 0, 0)), 1);
    assert_eq!(handle_file_service(&mut fs, &mut memory, 2, registers(0, RAM, 0, 0, 0)), 0);
}

#[test]
fn system_services_answer_fixed_device_queries() {
    let mut memory = memory();
    assert_eq!(handle_system_service(&mut memory, 3, 0, 0, 0, 0), 3);
    assert_eq!(handle_system_service(&mut memory, 17, RAM, 0, 0, 0), 4);
    assert_eq!(memory.r16(RAM), u16::from(b'.'));
    assert_eq!(memory.r16(RAM + 2), u16::from(b'/'));
    assert_eq!(handle_system_service(&mut memory, 25, RAM + 0x10, 3, 0, 0), 0);
    assert_eq!(read_c_bytes(&mut memory, RAM + 0x10, 16), b"cbe");
    assert_eq!(handle_system_service(&mut memory, 47, 0, 0, 0, 0x1_0000_0009), 9);
    assert_eq!(handle_system_service(&mut memory, 33, 0, 0, 0, 0), 1002);
}

#[test]
fn service_addresses_route_to_their_handlers() {
    assert_eq!(route_service(0x0c0f_fffc), ServiceRoute::LogNoop);
    assert_eq!(route_service(0x0c00_e004), ServiceRoute::FixedManagerInit(1));
    assert_eq!(route_service(0x0c00_d008), ServiceRoute::GameoldObject(2));
    assert_eq!(route_service(0x0c00_f000), ServiceRoute::NativeDispatch);
    assert_eq!(route_service(0x0c00_f100), ServiceRoute::SystemTime(2026));
    assert_eq!(route_service(0x0c00_f10c), ServiceRoute::SystemTime(12));
    assert_eq!(route_service(0x0c00_6c4c), ServiceRoute::MemoryBlock(1));
    assert_eq!(route_service(0x0c00_0c08), ServiceRoute::Group(3, 2));
    assert_eq!(return_from_service(0x0100_0101, 0), (0x0100_0100, 0x20));
    assert_eq!(return_from_service(0x0100_0100, 0x3f), (0x0100_0100, 0x1f));
}

#[test]
fn root_service_fills_and_returns_manager_tables() {
    let mut memory = memory();
    let table = MANAGER_BASE + 0x8000;
    assert_eq!(handle_root_service(&mut memory, 0, table), table);
    assert_eq!(memory.r32(table), 0x0c00_0000 + TABLE_STRIDE * 5);
    assert_eq!(memory.r32(table + 29 * 4), 0x0c00_0000 + TABLE_STRIDE * 5 + 29 * 4);
    assert_eq!(memory.r32(table + 30 * 4), 0);
    assert_eq!(handle_root_service(&mut memory, 1, 0), MANAGER_BASE + TABLE_STRIDE * 6);
    assert_eq!(handle_root_service(&mut memory, 40, 0), DL_LOAD_MANAGER);
    assert_eq!(handle_root_service(&mut memory, 99, 0), 0);
    assert_eq!(handle_fixed_manager_init(&mut memory, 0, table + 0x400), table + 0x400);
    assert_eq!(memory.r32(table + 0x400 + 4), 0x0c00_0000 + TABLE_STRIDE * 5 + 4);
    populate_table(&mut memory, table + 0x800, 0x10, 2);
    assert_eq!(memory.r32(table + 0x804), 0x14);
    memory.w32(RAM, table + 0xC00);
    memory.w16(RAM + 4, 8);
    assert_eq!(handle_app_store_service(&mut memory, 6, RAM), APP_STORE_MANAGER);
    assert_eq!(memory.r32(table + 0xC04), 0x0c00_0000 + TABLE_STRIDE * 28 + 4);
    assert_eq!(memory.r32(table + 0xC08), 0);
}

#[test]
fn timers_start_count_down_fire_once_and_stop() {
    let mut timers = GuestTimers::new();
    assert_eq!(timers.handle_timer_service(0, 250, 0, 0, 0), 0);
    let first = timers.handle_timer_service(0, 250, 0x1000, 7, 0);
    let second = timers.handle_timer_service(0, 0, 0x2000, 8, 0);
    assert_eq!((first, second), (TIMER_BASE_ID, TIMER_BASE_ID + 1));
    assert_eq!(timers.tick(), vec![(0x2000, 8)]);
    assert!(timers.tick().is_empty());
    assert_eq!(timers.tick(), vec![(0x1000, 7)]);
    assert!(timers.tick().is_empty());
    let third = timers.handle_timer_service(0, 100, 0x3000, 9, 0);
    assert_eq!(third, TIMER_BASE_ID);
    assert_eq!(timers.handle_timer_service(1, third, 0, 0, 0), 0);
    assert!(timers.tick().is_empty());
    assert_eq!(timers.handle_timer_service(2, 0, 0, 0, 12), 1200);
    assert_eq!(timers.handle_timer_service(3, 0, 0, 0, 20), 1_786_080_002);
}

#[test]
fn screen_stack_enters_pushes_and_removes_screens() {
    let mut memory = memory();
    memory.map(0x0a00_7000, 0x1000, false);
    memory.w32(SCREEN_IS_IN_QUIT, 1);
    let mut screens = ScreenState::new();
    assert_eq!(screens.handle_screen_service(&mut memory, 0, 0x100), SCREEN_IS_IN_QUIT);
    assert_eq!(memory.r32(SCREEN_IS_IN_QUIT), 0);
    assert_eq!(screens.handle_screen_service(&mut memory, 4, 0x200), 0);
    assert_eq!(screens.handle_screen_service(&mut memory, 4, 0x300), 0);
    assert_eq!(screens.stack(), &[0x100, 0x200, 0x300]);
    assert_eq!(screens.pending, 0x300);
    // Entering replaces the top screen.
    screens.handle_screen_service(&mut memory, 2, 0x400);
    assert_eq!(screens.stack(), &[0x100, 0x200, 0x400]);
    assert_eq!(screens.handle_screen_service(&mut memory, 9, 0x400), 1);
    assert_eq!(screens.handle_screen_service(&mut memory, 10, 0x100), 1);
    // Removing the pending screen makes the new top active.
    screens.active = 0x400;
    assert_eq!(screens.handle_screen_service(&mut memory, 6, 0x400), 1);
    assert_eq!(screens.stack(), &[0x100, 0x200]);
    assert_eq!((screens.pending, screens.active), (0x200, 0x200));
    assert!(!screens.initialized);
    assert_eq!(screens.handle_screen_service(&mut memory, 6, 0x999), 0);
    // A load request without a screen loads the pending one.
    assert_eq!(screens.handle_screen_service(&mut memory, 7, 0), 0);
    assert_eq!(screens.load_screen, 0x200);
    assert!(screens.load_pending);
}

#[test]
fn length_prefixed_strings_are_copied_to_the_heap() {
    let mut heap = GuestHeap::new();
    let mut memory = memory();
    put_bytes(&mut memory, RAM, &[9, 3, b'a', b'b', b'c', 2, 0, 0, 0, b'x', b'y']);
    memory.w32(RAM + 0x100, 1);
    let first = read_length_prefixed_string(&mut heap, &mut memory, RAM, RAM + 0x100, false);
    assert_eq!(first, HEAP_BASE);
    assert_eq!(read_c_bytes(&mut memory, first, 16), b"abc");
    assert_eq!(memory.r32(RAM + 0x100), 5);
    let second = read_length_prefixed_string(&mut heap, &mut memory, RAM, RAM + 0x100, true);
    assert_eq!(read_c_bytes(&mut memory, second, 16), b"xy");
    assert_eq!(memory.r32(RAM + 0x100), 11);
    memory.w32(RAM + 0x200, 0x0200_0000);
    memory.w32(RAM + 0x204, 0);
    assert_eq!(read_length_prefixed_string(&mut heap, &mut memory, RAM + 0x200, RAM + 0x204, true), 0);
}
