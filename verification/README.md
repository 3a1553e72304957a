# nicaiemu

An emulator library for Nicai phone games packaged as CBE files, written in
Verus: the executable code carries `requires`/`ensures` contracts and Verus
proves that it meets them and never panics.

## What is verified (`src/`)

- `cbe/`: the CBE archive scanner (sections numbered in file order, their
  resources listed in order), resource types, scene, map and actor parsers.
- `image_decoder`: the firmware PNG signature, CRC and the CBE GIF checks
  around the `image` crate's decoder.
- `audio_engine`: WAV parsing, resampling to 44.1 kHz stereo, the bounded
  output queue (always whole stereo frames, oldest samples dropped first),
  volume, pause/resume/stop and diagnostics. `play_bytes` runs the whole
  chain; MP3 data is refused with `Mp3Unsupported`, as no MP3 decoder is
  available to the library.
- `machine/`: the guest machine: memory regions, heap, virtual file system,
  timers, screens, the service tables and every service group the firmware
  dispatches, the per-instruction decisions (`before_instruction`,
  `finish_instruction`) and the boot and frame steps (`start_boot`,
  `start_frame`, `resume`).
- `save_state`: the versioned, checksummed frame format.
- `gamepad`, `gamepad_overlay`, `input`, `libretro`, `rotation_profile`,
  `runtime`: input mapping, the on-screen overlay, libretro option and
  pacing logic, rotation profiles and the RGBA frame buffer.

Public `proof fn`s state the laws that relate several functions (read after
write of memory and files, allocation and freeing, stack push and remove,
save-state round trip, section order, and others).

## What is not verified (`app/`)

`app/main.rs` is a headless runner: it reads the file, steps the
`armv4t_emu` ARM core between the library's decisions, computes the
floating-point power service and prints a summary. It holds no emulator
logic.

## Trusted items

Calls into other crates sit behind `#[verifier::external_body]` wrappers
whose contracts Verus believes:

- `crc32_hash` (`crc32fast::hash`): the standard CRC-32, stated in full.
- `guess_format_ok` and `load_rgba` (`image`): whether a format is known,
  and the decoded RGBA pixels (exactly four bytes per pixel), named.
- `unifont_glyph` (`unifont::get_glyph`): a glyph's width and rows, named.
- `gbk_decode` and `gbk_encode` (`encoding_rs::GBK`): named, with ASCII
  decoding one character per byte.
- `lz4_compress` and `lz4_decompress` (`lz4_flex`): named; decompression
  never yields more than the given capacity.
- `utf8_lossy`, `utf16_lossy`, `to_lowercase`, `chars_of`,
  `string_from_chars` (std): named, with the documented ASCII facts.

A "named" result is an uninterpreted spec function of the arguments: the
contracts that use it hold whatever the outside crate computes.
