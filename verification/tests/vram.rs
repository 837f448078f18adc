use rom_gen::vram::{image, init_row, vram, write_rows, Vram, COLUMNS, FOOT, HEAD, MIDDLE, ROWS, SIZE};

fn expected_image(init: &str) -> Vec<u8> {
    let mut bytes = vec![b' '; 32 * 128];
    for (i, line) in init.lines().enumerate() {
        for (j, c) in line.chars().enumerate() {
            if j < 128 && c.is_ascii() {
                bytes[i * 128 + j] = c as u8;
            }
        }
    }
    bytes
}

fn expected_rows(bytes: &[u8], name: &str, upper: bool) -> String {
    let mut text = String::new();
    for row in 0..32 {
        for high in 0..2 {
            let init = row * 2 + high;
            let mut line = format!("defparam {}.INIT_RAM_{:02X} = 256'h", name, init);
            for low in (0..64).rev() {
                let addr = row * 128 + high * 64 + low;
                let data = if upper { (bytes[addr] >> 4) & 15 } else { bytes[addr] & 15 };
                line.push(char::from_digit(data as u32, 16).unwrap());
            }
            line.push_str(";\n");
            text.push_str(&line);
        }
    }
    text
}

const SCREEN: &str = "Hello, world!\r\n\n  second line with caf\u{e9} and \u{20ac}\n~{|}\x7f\x00\x1b tail";

#[test]
fn vram_sizes() {
    assert_eq!(ROWS * COLUMNS, SIZE);
    assert_eq!(SIZE, 4096);
}

#[test]
fn image_of_nothing_is_spaces() {
    let vram = image("").unwrap();
    assert!(vram.bytes.iter().all(|b| *b == b' '));
}

#[test]
fn image_places_each_line_in_its_row() {
    let vram = image(SCREEN).unwrap();
    assert_eq!(&vram.bytes[0..14], b"Hello, world! ");
    assert_eq!(&vram.bytes[128..132], b"    ");
    assert_eq!(&vram.bytes[256..284], b"  second line with caf  and ");
    assert_eq!(&vram.bytes[384..397], b"~{|}\x7f\x00\x1b tail ");
    assert_eq!(vram.bytes.to_vec(), expected_image(SCREEN));
}

#[test]
fn image_cuts_lines_after_128_columns() {
    let long = format!("{}\n{}", "x".repeat(200), "y".repeat(128));
    let vram = image(&long).unwrap();
    assert!(vram.bytes[0..128].iter().all(|b| *b == b'x'));
    assert!(vram.bytes[128..256].iter().all(|b| *b == b'y'));
    assert!(vram.bytes[256..].iter().all(|b| *b == b' '));
    assert_eq!(vram.bytes.to_vec(), expected_image(&long));
}

#[test]
fn image_takes_32_lines() {
    let text: String = (0..32).map(|i| format!("line {}\n", i)).collect();
    let vram = image(&text).unwrap();
    assert_eq!(&vram.bytes[31 * 128..31 * 128 + 8], b"line 31 ");
    assert_eq!(vram.bytes.to_vec(), expected_image(&text));
}

#[test]
fn image_refuses_text_below_the_last_row() {
    let text: String = (0..33).map(|i| format!("line {}\n", i)).collect();
    assert!(image(&text).is_none());
    let text = format!("{}x", "\n".repeat(32));
    assert!(image(&text).is_none());
}

#[test]
fn image_ignores_what_it_cannot_show_below_the_last_row() {
    let text = format!("top{}", "\n".repeat(40));
    assert_eq!(image(&text).unwrap().bytes.to_vec(), expected_image(&text));
    let text = format!("top{}\u{e9}\u{20ac}\n", "\n".repeat(32));
    assert_eq!(image(&text).unwrap().bytes.to_vec(), expected_image(&text));
    let text = format!("top{}{}", "\n".repeat(32), "\u{e9}".repeat(128));
    assert_eq!(image(&text).unwrap().bytes.to_vec(), expected_image(&text));
    let text = format!("top{}{}x", "\n".repeat(32), "\u{e9}".repeat(128));
    assert_eq!(image(&text).unwrap().bytes.to_vec(), expected_image(&text));
    let text = format!("top{}{}x", "\n".repeat(32), "\u{e9}".repeat(127));
    assert!(image(&text).is_none());
}

#[test]
fn init_row_puts_the_last_byte_first() {
    let mut vram = Vram { bytes: [b' '; SIZE] };
    vram.bytes[0] = 0x4a;
    vram.bytes[63] = 0x7e;
    vram.bytes[64] = 0x31;
    vram.bytes[31 * 128 + 127] = 0xf0;
    assert_eq!(init_row(&vram, 0, 0, true), format!("7{}4", "2".repeat(62)));
    assert_eq!(init_row(&vram, 0, 0, false), format!("e{}a", "0".repeat(62)));
    assert_eq!(init_row(&vram, 0, 1, true), format!("{}3", "2".repeat(63)));
    assert_eq!(init_row(&vram, 0, 1, false), format!("{}1", "0".repeat(63)));
    assert_eq!(init_row(&vram, 31, 1, true), format!("f{}", "2".repeat(63)));
    assert_eq!(init_row(&vram, 31, 1, false), "0".repeat(64));
}

#[test]
fn write_rows_lists_64_strings() {
    let vram = image(SCREEN).unwrap();
    let mut text = String::from("x");
    write_rows(&vram, true, &mut text);
    assert_eq!(text, format!("x{}", expected_rows(&vram.bytes, "upper", true)));
    let mut text = String::new();
    write_rows(&vram, false, &mut text);
    assert_eq!(text, expected_rows(&vram.bytes, "lower", false));
    assert!(text.starts_with("defparam lower.INIT_RAM_00 = 256'h"));
    assert!(text.contains("\ndefparam lower.INIT_RAM_3F = 256'h"));
}

#[test]
fn vram_appends_the_whole_module() {
    let image = image(SCREEN).unwrap();
    let mut text = String::from("// generated\n");
    vram(&image, &mut text);
    let mut expected = String::from("// generated\n");
    expected.push_str(HEAD);
    expected.push_str(&expected_rows(&image.bytes, "upper", true));
    expected.push_str(MIDDLE);
    expected.push_str(&expected_rows(&image.bytes, "lower", false));
    expected.push_str(FOOT);
    assert_eq!(text, expected);
    assert!(HEAD.starts_with("`default_nettype none\nmodule vram\n(\n"));
    assert!(HEAD.ends_with("defparam upper.RESET_MODE = \"SYNC\";\n"));
    assert!(MIDDLE.starts_with("\nSDPB lower (\n"));
    assert!(MIDDLE.ends_with("defparam lower.RESET_MODE = \"SYNC\";\n"));
    assert_eq!(FOOT, "\nendmodule\n");
}
