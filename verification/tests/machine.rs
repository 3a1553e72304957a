use nicaiemu::machine::executable::{checksum_be, checksum_le, locate_checked_segment, CbeExecutable, SegmentKind};
use nicaiemu::machine::memory::MachineMemory;
use nicaiemu::machine::{
    arm_blx_immediate_target, clip_axis, game_service_string_uses_wide_length, image_payload,
    manager_initializer_count, rotate_frame, rotation_for_archive, signed_coord, thumb_add_pc_target,
    update_key_bits, update_physical_key_bits, variadic_argument_location, PointerState, Rotation,
    VariadicArgument,
};

#[test]
fn machine_checksum_ignores_partial_words() {
    assert_eq!(checksum_le(&[1, 0, 0, 0, 9]), 1);
    assert_eq!(checksum_be(&[0, 0, 0, 1, 9]), 1);
}

#[test]
fn mod_checksum_ignores_partial_words() {
    assert_eq!(checksum_le(&[1, 0, 0, 0, 9]), 1);
    assert_eq!(checksum_be(&[0, 0, 0, 1, 9]), 1);
}

#[test]
fn arm_blx_immediate_switch_target_includes_h_bit() {
    assert_eq!(arm_blx_immediate_target(0x0102_e6d4, 0xfa00_0004), Some(0x0102_e6ec));
    assert_eq!(arm_blx_immediate_target(0x1000, 0xfb00_0000), Some(0x100a));
    assert_eq!(arm_blx_immediate_target(0x1000, 0xea00_0000), None);
}

#[test]
fn thumb_add_pc_preserves_halfword_aligned_program_counter() {
    assert_eq!(thumb_add_pc_target(0x0100_112c, 0x449f, 0x18), Some(0x0100_1148));
    assert_eq!(thumb_add_pc_target(0x0100_81e6, 0x449f, 0x20), Some(0x0100_820a));
    assert_eq!(thumb_add_pc_target(0x1000, 0x4478, 4), None);
}

#[test]
fn machine_memory_honors_guest_endianness() {
    for big_endian in [false, true] {
        let mut memory = MachineMemory::new(big_endian);
        memory.map(0x1000, 16, false);
        memory.w8(0x1000, 0x12);
        memory.w16(0x1002, 0x3456);
        memory.w32(0x1004, 0x789a_bcde);
        assert_eq!(memory.r8(0x1000), 0x12);
        assert_eq!(memory.r16(0x1002), 0x3456);
        assert_eq!(memory.r32(0x1004), 0x789a_bcde);
    }
}

#[test]
fn rotate_frame_swaps_dimensions_and_keeps_orientation() {
    let source = vec![1, 2, 3, 4, 5, 6];
    let cw = rotate_frame(&source, 2, 3, Rotation::Cw);
    assert_eq!(cw.len(), 6);
    assert_eq!(cw, vec![5, 3, 1, 6, 4, 2]);
    let ccw = rotate_frame(&source, 2, 3, Rotation::Ccw);
    assert_eq!(ccw.len(), 6);
    assert_eq!(ccw, vec![2, 4, 6, 1, 3, 5]);
    assert_eq!(rotate_frame(&source, 2, 3, Rotation::Unrotated), source);
}

#[test]
fn rotation_unrotate_maps_display_back_to_framebuffer() {
    assert_eq!(Rotation::Unrotated.unrotate(10, 20), (10, 20));
    assert_eq!(Rotation::Cw.unrotate(10, 20), (20, 389));
    assert_eq!(Rotation::Cw.unrotate(399, 239), (239, 0));
    assert_eq!(Rotation::Ccw.unrotate(10, 20), (219, 10));
    assert_eq!(Rotation::Ccw.unrotate(399, 239), (0, 399));
}

#[test]
fn rotation_profile_rejects_unknown_content() {
    assert_eq!(rotation_for_archive(b"arbitrary game bytes"), Rotation::Unrotated);
    assert_eq!(rotation_for_archive(b""), Rotation::Unrotated);
    assert_ne!(rotation_for_archive(&[0; 341737]), Rotation::Ccw);
}

#[test]
fn manager_initializers_use_firmware_table_lengths() {
    assert_eq!(manager_initializer_count(0), Some(30));
    assert_eq!(manager_initializer_count(18), Some(115));
    assert_eq!(manager_initializer_count(32), Some(144));
    assert_eq!(manager_initializer_count(45), Some(6));
    assert_eq!(manager_initializer_count(26), None);
}

#[test]
fn game_service_string_readers_use_firmware_length_widths() {
    assert_eq!(game_service_string_uses_wide_length(97), Some(false));
    assert_eq!(game_service_string_uses_wide_length(101), Some(true));
    assert_eq!(game_service_string_uses_wide_length(96), None);
    assert_eq!(game_service_string_uses_wide_length(102), None);
}

#[test]
fn variadic_arguments_continue_from_registers_to_stack() {
    assert_eq!(variadic_argument_location(1, 0), VariadicArgument::Register(1));
    assert_eq!(variadic_argument_location(1, 2), VariadicArgument::Register(3));
    assert_eq!(variadic_argument_location(1, 3), VariadicArgument::Stack(0));
    assert_eq!(variadic_argument_location(2, 2), VariadicArgument::Stack(0));
}

#[test]
fn held_keys_remain_visible_without_repeating_down_edges() {
    let mut down = 0;
    let mut held = 0;
    let mut physical = 0;

    assert!(update_physical_key_bits(&mut physical, 16, true));
    update_key_bits(&mut down, &mut held, 16, true);
    assert_eq!(down, 1 << 16);
    assert_eq!(held, 1 << 16);

    down = 0;
    assert!(!update_physical_key_bits(&mut physical, 16, true));
    assert_eq!(down, 0);
    assert_eq!(held, 1 << 16);

    assert!(update_physical_key_bits(&mut physical, 16, false));
    update_key_bits(&mut down, &mut held, 16, false);
    assert_eq!(physical, 0);
    assert_eq!(held, 0);
}

#[test]
fn type_three_image_payload_skips_stream_metadata() {
    let mut resource = vec![3, 0, 0, 0, 8, 0, 1, 0, 1];
    resource.extend_from_slice(b"\x89PNG\r\n\x1a\n");
    assert_eq!(image_payload(&resource), b"\x89PNG\r\n\x1a\n");
}

#[test]
fn segment_locator_distinguishes_padding_from_leading_fe_data() {
    let padded = [0xfe, 0xfe, 0xfe, 0xfe, 0xfe, 0xfe, 0xfe, 0xfe, 0xfe, 1, 0, 0, 0];
    assert_eq!(locate_checked_segment(&padded, 0, 4, 1, None, SegmentKind::Code).unwrap(), (9, false));

    let leading_fe = [0xfe, 0xfe, 0xfe, 0xfe, 0xfe, 0xfe, 0xfe, 0xfe, 0xfe, 0xb5, 0, 0];
    let expected = checksum_le(&leading_fe[8..12]);
    assert_eq!(
        locate_checked_segment(&leading_fe, 0, 4, expected, None, SegmentKind::Code).unwrap(),
        (8, false)
    );
}

#[test]
fn executable_code_follows_variable_header_and_separator() {
    let variable_header_size = 6usize;
    let segment_header = 68 + variable_header_size;
    let header_end = segment_header + 6 * 12;
    let code = [1u8, 0, 0, 0];
    let initialized = [2u8, 0, 0, 0];
    let embedded = [3u8, 0, 0, 0];
    let mut data = vec![0u8; header_end];

    for index in 0..5 {
        data[index * 12..index * 12 + 8].fill(0xfe);
    }
    data[56..60].copy_from_slice(&(variable_header_size as u32).to_be_bytes());
    for index in 0..6 {
        let offset = segment_header + index * 12;
        data[offset..offset + 8].fill(0xfe);
    }
    for (index, value) in [
        code.len() as u32,
        checksum_le(&code),
        initialized.len() as u32,
        checksum_le(&initialized),
        embedded.len() as u32,
        checksum_le(&embedded),
    ]
    .into_iter()
    .enumerate()
    {
        let offset = segment_header + index * 12 + 8;
        data[offset..offset + 4].copy_from_slice(&value.to_be_bytes());
    }

    data.extend_from_slice(&[0xfe; 9]);
    let code_offset = data.len();
    data.extend_from_slice(&code);
    data.extend_from_slice(&[0xfe; 8]);
    let data_offset = data.len();
    data.extend_from_slice(&initialized);
    data.extend_from_slice(&[0xfe; 8]);
    let embedded_offset = data.len();
    data.extend_from_slice(&embedded);
    data.extend_from_slice(&[0xfe; 8]);
    data.extend_from_slice(&0u32.to_be_bytes());
    data.extend_from_slice(&[0xfe; 8]);
    let resource_package_offset = data.len();

    let executable = CbeExecutable::parse(&data).unwrap();
    assert_eq!(executable.code_offset, code_offset);
    assert_eq!(executable.data_offset, data_offset);
    assert_eq!(executable.embedded_package_offset, embedded_offset);
    assert_eq!(executable.resource_package_offset, resource_package_offset);
    assert!(!executable.big_endian);
}

#[test]
fn pointer_press_holds_drag_and_release_edges() {
    let mut pointer = PointerState::new();
    assert!(!pointer.held && !pointer.down && !pointer.up);

    pointer.set(120, 200, true);
    assert!(pointer.held);
    assert!(pointer.down);
    assert!(!pointer.up);
    assert!(!pointer.dragging());

    pointer.end_frame();
    assert!(!pointer.down);

    pointer.set(140, 210, true);
    assert!(!pointer.down);
    assert!(pointer.dragging());

    pointer.set(140, 210, false);
    assert!(!pointer.held);
    assert!(pointer.up);
}

#[test]
fn pointer_coordinates_are_clamped_to_the_screen() {
    let mut pointer = PointerState::new();
    pointer.set(-50, 500, true);
    assert_eq!((pointer.x, pointer.y), (0, 399));
    pointer.set(1000, -10, true);
    assert_eq!((pointer.x, pointer.y), (239, 0));
}

#[test]
fn memory_refuses_unmapped_and_read_only_writes() {
    let mut memory = MachineMemory::new(false);
    memory.map(0x2000, 8, true);
    assert_eq!(memory.load(0x2000, &[7, 8]), Ok(()));
    memory.w8(0x2000, 0x55);
    assert_eq!(memory.r8(0x2000), 7);
    assert_eq!(memory.r32(0x9000), 0);
    assert!(!memory.write_bytes(0x9000, &[1]));
    assert!(memory.bad_accesses().contains(&0x2000));
    assert!(memory.bad_accesses().contains(&0x9000));
    let infos = memory.region_infos();
    assert_eq!(infos.len(), 1);
    assert_eq!(infos[0].base, 0x2000);
    assert_eq!(infos[0].size, 8);
    assert!(infos[0].read_only);
}

#[test]
fn memory_reads_cut_writes_to_the_access_size() {
    let mut memory = MachineMemory::new(true);
    memory.map(0x0, 4, false);
    memory.write(0, 0x1234_5678, 2);
    assert_eq!(memory.read(0, 2), 0x5678);
    assert_eq!(memory.read(0, 1), 0x56);
}

#[test]
fn signed_coordinates_use_the_low_halfword() {
    assert_eq!(signed_coord(0x0001_0005), 5);
    assert_eq!(signed_coord(0xffff), -1);
    assert_eq!(signed_coord(0x8000), -32768);
}

#[test]
fn blit_clipping_moves_negative_starts_forward() {
    let mut source = -3;
    let mut size = 10;
    let mut destination = 5;
    clip_axis(&mut source, &mut size, &mut destination, 100, 100);
    assert_eq!((source, size, destination), (0, 7, 8));

    let mut source = 2;
    let mut size = 10;
    let mut destination = -4;
    clip_axis(&mut source, &mut size, &mut destination, 8, 3);
    assert_eq!((source, size, destination), (6, 2, 0));
}
