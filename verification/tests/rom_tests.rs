use lib::rom::{read_rom_from_file, ROM};

fn header_image() -> Vec<u8> {
    let mut bytes = vec![0u8; 0x8000];
    for i in 0x104..0x134 {
        bytes[i] = (i - 0x100) as u8;
    }
    let title = b"TETRIS";
    bytes[0x134..0x134 + title.len()].copy_from_slice(title);
    bytes[0x143] = 0x80;
    bytes[0x147] = 0x01;
    bytes[0x148] = 0x02;
    bytes[0x14A] = 0x01;
    bytes[0x14D] = 0x0B;
    bytes
}

fn rom_of(bytes: Vec<u8>) -> ROM {
    let len = bytes.len();
    read_rom_from_file(&String::from("game.gb"), len, bytes)
}

#[test]
fn size_is_what_the_file_system_reported() {
    let rom = read_rom_from_file(&String::from("game.gb"), 1234, vec![1, 2, 3]);
    assert_eq!(rom.get_size(), 1234);
}

#[test]
fn logo_is_bytes_0x104_to_0x132() {
    let rom = rom_of(header_image());
    let logo = rom.get_logo();
    assert_eq!(logo.len(), 0x133 - 0x104);
    assert_eq!(logo[0], 0x04);
    assert_eq!(logo[logo.len() - 1], 0x32);
}

#[test]
fn cgb_flag_and_cartridge_type() {
    let rom = rom_of(header_image());
    assert_eq!(rom.get_cgb_flag(), 0x80);
    assert_eq!(rom.get_cartridge_type(), 0x01);
}

#[test]
fn cartridge_size_is_32_kb_shifted_by_the_size_code() {
    let mut bytes = header_image();
    assert_eq!(rom_of(bytes.clone()).get_cartridge_size_kb(), 128);
    bytes[0x148] = 0;
    assert_eq!(rom_of(bytes.clone()).get_cartridge_size_kb(), 32);
    bytes[0x148] = 5;
    assert_eq!(rom_of(bytes.clone()).get_cartridge_size_kb(), 1024);
    bytes[0x148] = 26;
    assert_eq!(rom_of(bytes.clone()).get_cartridge_size_kb(), 0x8000_0000);
}

#[test]
fn cartridge_size_loses_bits_shifted_past_bit_31() {
    let mut bytes = header_image();
    bytes[0x148] = 27;
    assert_eq!(rom_of(bytes.clone()).get_cartridge_size_kb(), 0);
    bytes[0x148] = 31;
    assert_eq!(rom_of(bytes).get_cartridge_size_kb(), 0);
}

#[test]
fn name_is_the_title_bytes_decoded() {
    let rom = rom_of(header_image());
    assert_eq!(rom.get_name(), "TETRIS\0\0\0\0\0\0\0\0\0");
}

#[test]
fn name_decodes_multibyte_utf8() {
    let mut bytes = header_image();
    let title = "ÉTÉ PÅ SJØ".as_bytes();
    assert_eq!(title.len(), 14);
    bytes[0x134..0x134 + 14].copy_from_slice(title);
    bytes[0x142] = b'!';
    assert_eq!(rom_of(bytes).get_name(), "ÉTÉ PÅ SJØ!");
}

#[test]
fn destination_codes() {
    let mut bytes = header_image();
    assert_eq!(rom_of(bytes.clone()).get_destination_code(), "Non-Japanese");
    bytes[0x14A] = 0x00;
    assert_eq!(rom_of(bytes.clone()).get_destination_code(), "Japanese");
    bytes[0x14A] = 0x02;
    assert_eq!(rom_of(bytes.clone()).get_destination_code(), "Unknown");
    bytes[0x14A] = 0xFF;
    assert_eq!(rom_of(bytes).get_destination_code(), "Unknown");
}

#[test]
fn header_checksum_of_zero_bytes() {
    let mut bytes = vec![0u8; 0x150];
    bytes[0x14D] = 0x42;
    let (stored, computed) = rom_of(bytes).validate_checkchum();
    assert_eq!(stored, 0x42);
    // 1 - 24 * 1 = -23, which is 233 modulo 256
    assert_eq!(computed, 233);
}

#[test]
fn header_checksum_subtracts_each_byte_and_one() {
    let bytes = header_image();
    let mut expected: u8 = 1;
    for i in 0x134..0x14C {
        expected = expected.wrapping_sub(bytes[i]).wrapping_sub(1);
    }
    let (stored, computed) = rom_of(bytes).validate_checkchum();
    assert_eq!(stored, 0x0B);
    assert_eq!(computed, expected);
    let sum: i64 = b"TETRIS".iter().map(|b| *b as i64).sum::<i64>() + 0x80 + 0x01 + 0x02 + 0x01;
    assert_eq!(computed as i64, (1 - sum - 24).rem_euclid(256));
}

#[test]
fn len_and_byte_expose_the_image() {
    let rom = rom_of(header_image());
    assert_eq!(rom.len(), 0x8000);
    assert_eq!(rom.byte(0x134), b'T');
    assert_eq!(rom.byte(0x148), 0x02);
}
