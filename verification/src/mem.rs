use vstd::prelude::*;
use crate::rom::{ROM, RomView};

verus! {

/// Number of bytes of work RAM: one for each 16-bit address.
pub const RAM_SIZE: usize = 65536;

/// The memory controller: the cartridge image mapped at `0x0100..=0x3FFF`
/// and a RAM that backs every other address.
#[derive(Clone, Debug, Default)]
pub struct Mem {
    size: u16,
    rom: ROM,
    ram: Vec<u8>,
}

/// What a [`Mem`] holds, as mathematical values.
pub struct MemView {
    pub size: u16,
    pub rom: RomView,
    pub ram: Seq<u8>,
}

impl View for Mem {
    type V = MemView;

    closed spec fn view(&self) -> MemView {
        MemView { size: self.size, rom: self.rom@, ram: self.ram@ }
    }
}

/// Whether a byte access at `addr` goes to the cartridge image.
pub open spec fn in_rom_window(addr: u16) -> bool {
    0x0100 <= addr <= 0x3FFF
}

/// A 16-bit value with its two bytes exchanged.
pub open spec fn swap_bytes(v: u16) -> u16 {
    ((v % 256) * 256 + v / 256) as u16
}

impl MemView {
    /// The RAM covers the whole 16-bit address space.
    pub open spec fn wf(self) -> bool {
        self.ram.len() == RAM_SIZE
    }

    /// A byte access at `addr` stays inside the memory that backs it.
    pub open spec fn byte_ok(self, addr: u16) -> bool {
        &&& self.wf()
        &&& in_rom_window(addr) ==> addr < self.rom.buffer.len()
    }

    pub open spec fn read8(self, addr: u16) -> u8 {
        if in_rom_window(addr) {
            self.rom.buffer[addr as int]
        } else {
            self.ram[addr as int]
        }
    }

    pub open spec fn write8(self, addr: u16, v: u8) -> MemView {
        if in_rom_window(addr) {
            MemView { rom: RomView { buffer: self.rom.buffer.update(addr as int, v), ..self.rom }, ..self }
        } else {
            MemView { ram: self.ram.update(addr as int, v), ..self }
        }
    }

    /// A 16-bit read at `addr` stays inside the cartridge image and its
    /// second address does not overflow.
    pub open spec fn read16_ok(self, addr: u16) -> bool {
        &&& addr < 0xFFFF
        &&& addr + 1 < self.rom.buffer.len()
    }

    /// The little-endian 16-bit value at `addr` of the cartridge image.
    pub open spec fn read16(self, addr: u16) -> u16 {
        (self.rom.buffer[addr + 1] * 256 + self.rom.buffer[addr as int]) as u16
    }

    /// A 16-bit write at `addr` stays inside the cartridge image.
    pub open spec fn write16_ok(self, addr: u16) -> bool {
        addr <= 0x7FFF ==> addr + 1 < self.rom.buffer.len()
    }

    /// A 16-bit write: below `0x8000` the high byte goes to `addr` and the
    /// low byte to `addr + 1` of the cartridge image; elsewhere nothing changes.
    pub open spec fn write16(self, addr: u16, v: u16) -> MemView {
        if addr <= 0x7FFF {
            MemView {
                rom: RomView {
                    buffer: self.rom.buffer.update(addr as int, (v / 256) as u8).update(
                        addr + 1,
                        (v % 256) as u8,
                    ),
                    ..self.rom
                },
                ..self
            }
        } else {
            self
        }
    }
}

impl Mem {
    /// A memory controller over `arom` with zeroed RAM.
    pub fn new(arom: ROM) -> (r: Mem)
        ensures
            r@ == (MemView { size: 0xFFFF, rom: arom@, ram: Seq::new(RAM_SIZE as nat, |i: int| 0u8) }),
            r@.wf(),
    {
        let ram: Vec<u8> = vec![0x00; RAM_SIZE];
        assert(ram@ =~= Seq::new(RAM_SIZE as nat, |i: int| 0u8));
        Mem { size: 0xFFFF, rom: arom, ram: ram }
    }

    /// Whether a byte access at `addr` stays inside the memory that backs it.
    pub fn byte_in_range(&self, addr: u16) -> (r: bool)
        ensures
            r == self@.byte_ok(addr),
    {
        self.ram.len() == RAM_SIZE && (!(0x0100 <= addr && addr <= 0x3FFF) || (addr as usize) < self.rom.len())
    }

    /// Whether a 16-bit read at `addr` stays inside the cartridge image.
    pub fn word_readable(&self, addr: u16) -> (r: bool)
        ensures
            r == self@.read16_ok(addr),
    {
        addr < 0xFFFF && (addr as usize) + 1 < self.rom.len()
    }

    /// Whether a 16-bit write at `addr` stays inside the cartridge image.
    pub fn word_writable(&self, addr: u16) -> (r: bool)
        ensures
            r == self@.write16_ok(addr),
    {
        addr > 0x7FFF || (addr as usize) + 1 < self.rom.len()
    }

    /// The byte at `addr`: from the cartridge image in `0x0100..=0x3FFF`, from RAM elsewhere.
    pub fn read8(&self, addr: u16) -> (r: u8)
        requires
            self@.byte_ok(addr),
        ensures
            r == self@.read8(addr),
    {
        if 0x0100 <= addr && addr <= 0x3FFF {
            self.rom.byte(addr as usize)
        } else {
            self.ram[addr as usize]
        }
    }

    /// Stores `v` at `addr`, in the cartridge image in `0x0100..=0x3FFF` and in RAM elsewhere.
    pub fn write8(&mut self, addr: u16, v: u8)
        requires
            old(self)@.byte_ok(addr),
        ensures
            final(self)@ == old(self)@.write8(addr, v),
    {
        if 0x0100 <= addr && addr <= 0x3FFF {
            self.rom.set_byte(addr as usize, v);
        } else {
            self.ram.set(addr as usize, v);
        }
    }

    /// The little-endian word at `addr` of the cartridge image.
    pub fn read16(&self, addr: u16) -> (r: u16)
        requires
            self@.read16_ok(addr),
        ensures
            r == self@.read16(addr),
    {
        let hi = self.rom.byte((addr + 1) as usize);
        let lo = self.rom.byte(addr as usize);
        let v = (((hi as u16) << 8) | (lo as u16)) as u16;
        assert((((hi as u16) << 8u16) | (lo as u16)) == hi as int * 256 + lo as int) by (bit_vector);
        v
    }

    /// Stores `v` high byte first at `addr` of the cartridge image below `0x8000`; ignored above.
    pub fn write16(&mut self, addr: u16, v: u16)
        requires
            old(self)@.write16_ok(addr),
        ensures
            final(self)@ == old(self)@.write16(addr, v),
    {
        if addr <= 0x7FFF {
            assert((((v & 0xFF00u16) >> 8u16) as u8) == v / 256) by (bit_vector);
            assert(((v & 0x00FFu16) as u8) == v % 256) by (bit_vector);
            self.rom.set_byte(addr as usize, ((v & 0xFF00) >> 8) as u8);
            self.rom.set_byte((addr + 1) as usize, (v & 0x00FF) as u8);
        }
    }
}

/// A byte written at an address is read back there, and every other address
/// reads as before.
pub proof fn lemma_read8_after_write8(m: MemView, addr: u16, other: u16, v: u8)
    requires
        m.byte_ok(addr),
        m.byte_ok(other),
    ensures
        m.write8(addr, v).read8(addr) == v,
        other != addr ==> m.write8(addr, v).read8(other) == m.read8(other),
        m.write8(addr, v).wf(),
{
}

/// A 16-bit value written below `0x8000` reads back with its bytes exchanged:
/// `write16` stores the high byte first and `read16` takes the first byte as
/// the low one.
pub proof fn lemma_read16_after_write16(m: MemView, addr: u16, v: u16)
    requires
        addr <= 0x7FFF,
        m.read16_ok(addr),
    ensures
        m.write16(addr, v).read16(addr) == swap_bytes(v),
{
}

/// A 16-bit write at `0x8000` or above changes nothing.
pub proof fn lemma_write16_above_rom_is_ignored(m: MemView, addr: u16, v: u16)
    requires
        addr > 0x7FFF,
    ensures
        m.write16(addr, v) == m,
{
}


/// Byte addresses `0x0100..=0x3FFF` reach the cartridge image at the same
/// offset and all other addresses reach RAM at the same offset, for reads and
/// for writes; 16-bit reads take the low byte at `addr` and the high byte at
/// `addr + 1` of the image, and 16-bit writes below `0x8000` put the high byte
/// at `addr` and the low byte at `addr + 1`.
pub proof fn lemma_memory_map(m: MemView, addr: u16, v: u8, w: u16)
    ensures
        0x0100 <= addr <= 0x3FFF ==> m.read8(addr) == m.rom.buffer[addr as int],
        (addr < 0x0100 || addr > 0x3FFF) ==> m.read8(addr) == m.ram[addr as int],
        0x0100 <= addr <= 0x3FFF && addr < m.rom.buffer.len() ==> {
            &&& m.write8(addr, v).rom.buffer == m.rom.buffer.update(addr as int, v)
            &&& m.write8(addr, v).ram == m.ram
        },
        (addr < 0x0100 || addr > 0x3FFF) && addr < m.ram.len() ==> {
            &&& m.write8(addr, v).ram == m.ram.update(addr as int, v)
            &&& m.write8(addr, v).rom == m.rom
        },
        m.read16(addr) == (m.rom.buffer[addr as int] + 256 * m.rom.buffer[addr + 1]) as u16,
        addr <= 0x7FFF && addr + 1 < m.rom.buffer.len() ==> {
            &&& m.write16(addr, w).rom.buffer[addr as int] * 256 + m.write16(addr, w).rom.buffer[addr + 1] == w
            &&& m.write16(addr, w).ram == m.ram
            &&& m.write16(addr, w).rom.buffer.len() == m.rom.buffer.len()
        },
{
}

} // verus!
