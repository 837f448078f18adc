use rom_gen::code::{Code, Control, Key};
use rom_gen::rom::{
    build_rom, Rom, CAPS_LOCK, CONTROL, EXTENDED, NUM_LOCK, ROM_SIZE, SCAN_CODE_SHIFT, SHIFT,
};
use rom_gen::keys::KeyTable;
use rom_gen::line::read_key;
use rom_gen::table::read_keys;

fn basic(character: char) -> Code {
    Code::Basic { character }
}

fn key_of(line: &str) -> Key {
    read_key(line, &KeyTable::new()).unwrap().1
}

fn rom_of(lines: &[&str]) -> Rom {
    let keys: Vec<Key> = lines.iter().map(|line| key_of(line)).collect();
    build_rom(&keys)
}

fn slots(rom: &Rom, base: usize) -> Vec<u8> {
    (0..16).map(|m| rom.get(base + m)).collect()
}

#[test]
fn address_bits() {
    assert_eq!(ROM_SIZE, 8192);
    assert_eq!(EXTENDED, 1 << 12);
    assert_eq!(SCAN_CODE_SHIFT, 4);
    assert_eq!(NUM_LOCK, 1 << 3);
    assert_eq!(CONTROL, 1 << 2);
    assert_eq!(CAPS_LOCK, 1 << 1);
    assert_eq!(SHIFT, 1 << 0);
}

#[test]
fn new_rom_is_blank() {
    let rom = Rom::new();
    assert_eq!(rom.bytes.len(), 8192);
    assert!(rom.bytes.iter().all(|b| *b == 0));
    assert_eq!(rom.get(0), 0);
    assert_eq!(rom.get(8191), 0);
    assert_eq!(rom.get(8192), 0);
}

#[test]
fn get_outside_the_rom_is_zero() {
    let rom = rom_of(&["X  FF  x  X", "Y  E0 FF  y  Y"]);
    assert_eq!(rom.get(0x0ff0), b'x');
    assert_eq!(rom.get(0x1ff0), b'y');
    assert_eq!(rom.get(0x1ffb), b'y');
    assert_eq!(rom.get(0x1fff), 0);
    assert_eq!(rom.get(0x2000), 0);
    assert_eq!(rom.get(usize::MAX), 0);
}

#[test]
fn letter_key_with_caps_lock_swap() {
    let rom = rom_of(&["A  1E  a  A"]);
    assert_eq!(rom.get(0x1e0), 0x61);
    assert_eq!(rom.get(0x1e1), 0x41);
    assert_eq!(rom.get(0x1e2), 0x41);
    assert_eq!(rom.get(0x1e3), 0x61);
    assert_eq!(
        slots(&rom, 0x1e0),
        vec![0x61, 0x41, 0x41, 0x61, 0, 0, 0, 0, 0x61, 0x41, 0x41, 0x61, 0, 0, 0, 0]
    );
}

#[test]
fn caps_lock_leaves_other_keys_alone() {
    let rom = rom_of(&["1  16  1  !"]);
    assert_eq!(
        slots(&rom, 0x160),
        vec![0x31, 0x21, 0x31, 0x21, 0, 0, 0, 0, 0x31, 0x21, 0x31, 0x21, 0, 0, 0, 0]
    );
}

#[test]
fn up_key_encodes_letter_sequence() {
    let rom = rom_of(&["UP  E0 75  ^[[A  ..."]);
    let base = 0x1000 | (0x75 << 4);
    assert_eq!(rom.get(base), 0xa1);
    assert_eq!(rom.get(base | NUM_LOCK), 0xa1);
    assert_eq!(rom.get(base | NUM_LOCK | SHIFT), rom.get(base | SHIFT));
    assert_eq!(
        slots(&rom, base),
        vec![0xa1, 0xa1, 0xa1, 0xa1, 0, 0, 0, 0, 0xa1, 0xa1, 0xa1, 0xa1, 0, 0, 0, 0]
    );
    assert_eq!(rom.get(0x750), 0);
}

#[test]
fn num_lock_override_scenario() {
    let rom = rom_of(&["KP5  4C  NUM=5  ^[[E  ..."]);
    let base = 0x4c0;
    assert_eq!(rom.get(base | NUM_LOCK), 0x35);
    assert_eq!(rom.get(base | NUM_LOCK | SHIFT), 0xa5);
    assert_eq!(rom.get(base | NUM_LOCK | CONTROL), 0);
    assert_eq!(
        slots(&rom, base),
        vec![0xa5, 0xa5, 0xa5, 0xa5, 0, 0, 0, 0, 0x35, 0xa5, 0x35, 0xa5, 0, 0, 0, 0]
    );
}

#[test]
fn explicit_control_ignores_shift_and_caps_lock() {
    let rom = rom_of(&["A  1C  a  A  ^A"]);
    assert_eq!(
        slots(&rom, 0x1c0),
        vec![0x61, 0x41, 0x41, 0x61, 1, 1, 1, 1, 0x61, 0x41, 0x41, 0x61, 1, 1, 1, 1]
    );
}

#[test]
fn similar_control_copies_the_plain_bytes() {
    let rom = rom_of(&["A  1C  a  A  ..."]);
    for m in 0..4 {
        assert_eq!(rom.get(0x1c0 | CONTROL | m), rom.get(0x1c0 | m));
    }
    assert_eq!(
        slots(&rom, 0x1c0),
        vec![
            0x61, 0x41, 0x41, 0x61, 0x61, 0x41, 0x41, 0x61, 0x61, 0x41, 0x41, 0x61, 0x61, 0x41,
            0x41, 0x61
        ]
    );
}

#[test]
fn absent_control_is_nul_in_a_table_without_collisions() {
    let text = "A  1C  a  A\nB  32  b  B  ^B\nUP  E0 75  ^[[A  ...\nKP8  75  NUM=8  -> UP\n";
    let keys = read_keys(text).unwrap().keys();
    let rom = build_rom(&keys);
    for base in [0x1c0, 0x1750, 0x750] {
        for m in 0..4 {
            assert_eq!(rom.get(base | CONTROL | m), 0);
            assert_eq!(rom.get(base | NUM_LOCK | CONTROL | m), 0);
        }
    }
    assert_eq!(rom.get(0x320 | CONTROL), 2);
}

#[test]
fn override_with_control_code() {
    let key = Key {
        extended: false,
        scan_code: 0x70,
        num_lock_override: Some('0'),
        normal: Code::Number { tens: '0', ones: '2' },
        shift: basic('S'),
        control: Control::Explicit(basic('\x03')),
    };
    let rom = build_rom(&[key]);
    assert_eq!(
        slots(&rom, 0x700),
        vec![0xc2, 0x53, 0xc2, 0x53, 3, 3, 3, 3, 0x30, 0xc2, 0x30, 0xc2, 0, 3, 0, 3]
    );
}

#[test]
fn override_shift_repeats_the_unshifted_byte_under_caps_lock() {
    let key = Key {
        extended: false,
        scan_code: 0x10,
        num_lock_override: Some('7'),
        normal: basic('q'),
        shift: basic('Q'),
        control: Control::Similar,
    };
    let rom = build_rom(&[key]);
    assert_eq!(
        slots(&rom, 0x100),
        vec![
            0x71, 0x51, 0x51, 0x71, 0x71, 0x51, 0x51, 0x71, 0x37, 0x71, 0x37, 0x51, 0, 0x51, 0,
            0x71
        ]
    );
}

#[test]
fn override_character_keeps_its_low_byte() {
    let key = Key {
        extended: true,
        scan_code: 0,
        num_lock_override: Some('\u{20ac}'),
        normal: basic('x'),
        shift: basic('X'),
        control: Control::Absent,
    };
    let rom = build_rom(&[key]);
    assert_eq!(rom.get(0x1000 | NUM_LOCK), 0xac);
    assert_eq!(rom.get(0x1000 | NUM_LOCK | CAPS_LOCK), 0xac);
}

#[test]
fn write_key_changes_only_the_slots_of_the_key() {
    let mut rom = Rom::new();
    for (i, b) in rom.bytes.iter_mut().enumerate() {
        *b = (i % 251) as u8;
    }
    let before = rom.bytes;
    rom.write_key(&key_of("A  1C  a  A  ^A"));
    for addr in 0..ROM_SIZE {
        if !(0x1c0..0x1d0).contains(&addr) {
            assert_eq!(rom.bytes[addr], before[addr]);
        }
    }
    assert_eq!(rom.get(0x1c0), 0x61);
}

#[test]
fn absent_control_leaves_what_the_rom_held() {
    let mut rom = Rom::new();
    rom.write_key(&key_of("A  1C  a  A  ^A"));
    rom.write_key(&key_of("B  1C  b  B"));
    assert_eq!(
        slots(&rom, 0x1c0),
        vec![0x62, 0x42, 0x42, 0x62, 1, 1, 1, 1, 0x62, 0x42, 0x42, 0x62, 1, 1, 1, 1]
    );
}

#[test]
fn later_key_wins_a_collision() {
    let rom = rom_of(&["A  1C  a  A  ...", "B  1C  1  !  ^B"]);
    assert_eq!(
        slots(&rom, 0x1c0),
        vec![0x31, 0x21, 0x31, 0x21, 2, 2, 2, 2, 0x31, 0x21, 0x31, 0x21, 2, 2, 2, 2]
    );
    let rom = rom_of(&["A  1C  a  A", "B  E0 1C  b  B"]);
    assert_eq!(rom.get(0x1c0), 0x61);
    assert_eq!(rom.get(0x11c0), 0x62);
}

#[test]
fn order_does_not_matter_without_collisions() {
    let lines = ["A  1C  a  A  ...", "UP  E0 75  ^[[A  ...", "KP5  73  NUM=5  ^[[E  ...", "F1  05  ^[OP  ^[[23~  ^[[11~"];
    let forward = rom_of(&lines);
    let mut reversed = lines;
    reversed.reverse();
    let backward = rom_of(&reversed);
    assert_eq!(forward.bytes.to_vec(), backward.bytes.to_vec());
}

#[test]
fn build_rom_of_no_keys_is_blank() {
    let rom = build_rom(&[]);
    assert!(rom.bytes.iter().all(|b| *b == 0));
}

#[test]
fn unused_addresses_stay_zero() {
    let rom = rom_of(&["A  1C  a  A  ...", "Z  FF  z  Z"]);
    let used = |addr: usize| (0x1c0..0x1d0).contains(&addr) || (0xff0..0x1000).contains(&addr);
    for addr in 0..ROM_SIZE {
        if !used(addr) {
            assert_eq!(rom.get(addr), 0, "{:#x}", addr);
        }
    }
}
