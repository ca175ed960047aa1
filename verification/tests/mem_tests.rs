use lib::lcd::LCD;
use lib::mem::Mem;
use lib::rom::read_rom_from_file;

fn mem_with(bytes: Vec<u8>) -> Mem {
    let len = bytes.len();
    Mem::new(read_rom_from_file(&String::from("m.gb"), len, bytes))
}

fn counting_image() -> Vec<u8> {
    (0..0x8000usize).map(|i| (i % 251) as u8).collect()
}

#[test]
fn ram_starts_zeroed_and_rom_window_reads_the_image() {
    let m = mem_with(counting_image());
    assert_eq!(m.read8(0x0000), 0);
    assert_eq!(m.read8(0x00FF), 0);
    assert_eq!(m.read8(0x0100), (0x0100 % 251) as u8);
    assert_eq!(m.read8(0x3FFF), (0x3FFF % 251) as u8);
    assert_eq!(m.read8(0x4000), 0);
    assert_eq!(m.read8(0xFFFF), 0);
}

#[test]
fn read8_gives_back_write8() {
    let mut m = mem_with(counting_image());
    for addr in [0x0000u16, 0x00FF, 0x0100, 0x2000, 0x3FFF, 0x4000, 0xC000, 0xFFFF] {
        m.write8(addr, 0xA5);
        assert_eq!(m.read8(addr), 0xA5);
    }
    assert_eq!(m.read8(0x0101), (0x0101 % 251) as u8);
    assert_eq!(m.read8(0xC001), 0);
}

#[test]
fn write8_in_the_rom_window_leaves_ram_alone_and_the_reverse() {
    let mut m = mem_with(counting_image());
    m.write8(0x0200, 0x11);
    m.write8(0x5000, 0x22);
    assert_eq!(m.read8(0x0200), 0x11);
    assert_eq!(m.read8(0x5000), 0x22);
    assert_eq!(m.read16(0x0200) & 0xFF, 0x11);
    // read16 always reads the cartridge image, which still holds the old byte at 0x5000
    assert_eq!(m.read16(0x5000) & 0xFF, (0x5000 % 251) as u16);
}

#[test]
fn read16_is_little_endian() {
    let mut bytes = vec![0u8; 0x400];
    bytes[0x300] = 0x34;
    bytes[0x301] = 0x12;
    let m = mem_with(bytes);
    assert_eq!(m.read16(0x300), 0x1234);
}

#[test]
fn write16_then_read16_exchanges_the_bytes() {
    let mut m = mem_with(counting_image());
    m.write16(0x1000, 0x1234);
    assert_eq!(m.read16(0x1000), 0x3412);
    m.write16(0x7FFE, 0xBEEF);
    assert_eq!(m.read16(0x7FFE), 0xEFBE);
    m.write16(0x0000, 0x00FF);
    assert_eq!(m.read16(0x0000), 0xFF00);
}

#[test]
fn write16_at_0x8000_or_above_is_ignored() {
    let mut m = mem_with(vec![7u8; 0x9000]);
    m.write16(0x8000, 0x1234);
    assert_eq!(m.read16(0x8000), 0x0707);
    assert_eq!(m.read8(0x8000), 0);
}

#[test]
fn lcd_registers_start_zeroed() {
    let lcd = LCD::new();
    assert_eq!(lcd.read8(0xFF40), 0);
    assert_eq!(lcd.read8(0xFF54), 0);
}
