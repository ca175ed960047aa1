use vstd::prelude::*;
use vstd::utf8::{valid_utf8, decode_utf8};

verus! {

/// First byte of the Nintendo logo in the cartridge header.
pub const LOGO_START: usize = 0x104;
/// One past the last byte of the Nintendo logo that is handed out.
pub const LOGO_END: usize = 0x133;
/// First byte of the title.
pub const TITLE_START: usize = 0x134;
/// One past the last byte of the title.
pub const TITLE_END: usize = 0x143;
/// The CGB flag.
pub const CGB_FLAG: usize = 0x143;
/// The cartridge type.
pub const CARTRIDGE_TYPE: usize = 0x147;
/// The ROM size code.
pub const ROM_SIZE_CODE: usize = 0x148;
/// The destination code.
pub const DESTINATION_CODE: usize = 0x14A;
/// One past the last byte that goes into the header checksum.
pub const CHECKSUM_RANGE_END: usize = 0x14C;
/// The stored header checksum.
pub const HEADER_CHECKSUM: usize = 0x14D;

/// A cartridge image: the name of the file it came from, the size that the
/// file system reported for it, and its bytes.
#[derive(Clone, Debug, Default)]
pub struct ROM {
    filename: String,
    size: usize,
    buffer: Vec<u8>,
}

/// What a [`ROM`] holds, as mathematical values.
pub struct RomView {
    pub filename: Seq<char>,
    pub size: usize,
    pub buffer: Seq<u8>,
}

impl View for ROM {
    type V = RomView;

    closed spec fn view(&self) -> RomView {
        RomView { filename: self.filename@, size: self.size, buffer: self.buffer@ }
    }
}

/// The cartridge size in kB for a ROM size code below 32: `32 << code` in
/// 32-bit arithmetic, where every bit shifted past bit 31 is lost.
pub open spec fn cartridge_size_kb(code: u8) -> u32 {
    if code < 27 {
        (32 * vstd::arithmetic::power2::pow2(code as nat)) as u32
    } else {
        0
    }
}

/// The destination text for a destination code.
pub open spec fn destination_text(code: u8) -> Seq<char> {
    if code == 0 {
        "Japanese"@
    } else if code == 1 {
        "Non-Japanese"@
    } else {
        "Unknown"@
    }
}

/// The sum of a sequence of bytes.
pub open spec fn byte_sum(bytes: Seq<u8>) -> int
    decreases bytes.len(),
{
    if bytes.len() == 0 {
        0
    } else {
        byte_sum(bytes.drop_last()) + bytes.last()
    }
}

/// Starting from 1, subtract each byte and then 1, modulo 256.
pub open spec fn header_checksum(bytes: Seq<u8>) -> int {
    (1 - byte_sum(bytes) - bytes.len()) % 256
}

/// Converts bytes to a `String` with std's `String::from_utf8`.
/// Claimed of that function, with UTF-8 as vstd's `valid_utf8` and
/// `decode_utf8` define it: it succeeds exactly on valid UTF-8, and the
/// string then holds the characters that the bytes encode.
#[verifier::external_body]
fn string_from_utf8(bytes: Vec<u8>) -> (r: Option<String>)
    ensures
        r is Some <==> valid_utf8(bytes@),
        r is Some ==> r->0@ == decode_utf8(bytes@),
{
    String::from_utf8(bytes).ok()
}

/// Builds the image of a cartridge file from what was read of it: its name,
/// the length that the file system reported, and its contents.
pub fn read_rom_from_file(filename: &String, size: usize, contents: Vec<u8>) -> (r: ROM)
    ensures
        r@ == (RomView { filename: filename@, size: size, buffer: contents@ }),
{
    ROM { filename: filename.clone(), size: size, buffer: contents }
}

impl ROM {
    /// The byte at `i`.
    pub fn byte(&self, i: usize) -> (r: u8)
        requires
            i < self@.buffer.len(),
        ensures
            r == self@.buffer[i as int],
    {
        self.buffer[i]
    }

    /// The number of bytes of the image, which bounds what the getters may read.
    pub fn len(&self) -> (r: usize)
        ensures
            r == self@.buffer.len(),
    {
        self.buffer.len()
    }

    /// Replaces the byte at `i` by `v`.
    pub(crate) fn set_byte(&mut self, i: usize, v: u8)
        requires
            i < old(self)@.buffer.len(),
        ensures
            final(self)@ == (RomView { buffer: old(self)@.buffer.update(i as int, v), ..old(self)@ }),
    {
        self.buffer.set(i, v);
    }

    /// The length of the file that the image was read from.
    pub fn get_size(&self) -> (r: usize)
        ensures
            r == self@.size,
    {
        self.size
    }

    /// The Nintendo logo bytes `0x104..0x133` of the header.
    pub fn get_logo(&self) -> (r: Vec<u8>)
        requires
            LOGO_END <= self@.buffer.len(),
        ensures
            r@ == self@.buffer.subrange(LOGO_START as int, LOGO_END as int),
    {
        let mut logo: Vec<u8> = Vec::new();
        let mut i: usize = LOGO_START;
        while i < LOGO_END
            invariant
                LOGO_START <= i <= LOGO_END,
                LOGO_END <= self.buffer@.len(),
                logo@ == self.buffer@.subrange(LOGO_START as int, i as int),
            decreases LOGO_END - i,
        {
            logo.push(self.buffer[i]);
            i = i + 1;
        }
        logo
    }

    /// The CGB flag at `0x143`.
    pub fn get_cgb_flag(&self) -> (r: u8)
        requires
            CGB_FLAG < self@.buffer.len(),
        ensures
            r == self@.buffer[CGB_FLAG as int],
    {
        let cgb = self.buffer[CGB_FLAG];
        cgb
    }

    /// The cartridge type at `0x147`.
    pub fn get_cartridge_type(&self) -> (r: u8)
        requires
            CARTRIDGE_TYPE < self@.buffer.len(),
        ensures
            r == self@.buffer[CARTRIDGE_TYPE as int],
    {
        let t = self.buffer[CARTRIDGE_TYPE];
        t
    }

    /// The cartridge size in kB: `32 << code` for the ROM size code at `0x148`.
    pub fn get_cartridge_size_kb(&self) -> (r: u32)
        requires
            ROM_SIZE_CODE < self@.buffer.len(),
            self@.buffer[ROM_SIZE_CODE as int] < 32,
        ensures
            r == cartridge_size_kb(self@.buffer[ROM_SIZE_CODE as int]),
    {
        let code = self.buffer[ROM_SIZE_CODE];
        let t: u32 = 32u32 << code;
        proof {
            if code < 27 {
                let c32: u32 = code as u32;
                assert(32u32 << code == 32u32 << c32) by (bit_vector)
                    requires c32 == code;
                vstd::arithmetic::power2::lemma2_to64();
                if code < 26 {
                    vstd::arithmetic::power2::lemma_pow2_strictly_increases(code as nat, 26);
                }
                vstd::bits::lemma_u32_shl_is_mul(32, c32);
            } else {
                assert(27 <= code < 32 ==> 32u32 << code == 0) by (bit_vector);
            }
        }
        t
    }

    /// The title: bytes `0x134..0x143` decoded as UTF-8.
    pub fn get_name(&self) -> (r: String)
        requires
            TITLE_END <= self@.buffer.len(),
            valid_utf8(self@.buffer.subrange(TITLE_START as int, TITLE_END as int)),
        ensures
            r@ == decode_utf8(self@.buffer.subrange(TITLE_START as int, TITLE_END as int)),
    {
        let mut title: Vec<u8> = Vec::new();
        let mut i: usize = TITLE_START;
        while i < TITLE_END
            invariant
                TITLE_START <= i <= TITLE_END,
                TITLE_END <= self.buffer@.len(),
                title@ == self.buffer@.subrange(TITLE_START as int, i as int),
            decreases TITLE_END - i,
        {
            title.push(self.buffer[i]);
            i = i + 1;
        }
        string_from_utf8(title).unwrap()
    }

    /// The destination named by the code at `0x14A`.
    pub fn get_destination_code(&self) -> (r: String)
        requires
            DESTINATION_CODE < self@.buffer.len(),
        ensures
            r@ == destination_text(self@.buffer[DESTINATION_CODE as int]),
    {
        let mut ret: String = "Unknown".to_owned();
        if self.buffer[DESTINATION_CODE] == 0x00 {
            ret = "Japanese".to_owned();
        } else if self.buffer[DESTINATION_CODE] == 0x01 {
            ret = "Non-Japanese".to_owned();
        }
        ret
    }

    /// The stored header checksum and the one computed from the header bytes
    /// `0x134..0x14C`, in that order. The computed one starts at 1 and
    /// subtracts each byte and then 1; the subtraction wraps modulo 256 on
    /// purpose, as a checksum does (with overflow checks on, the plain `u8`
    /// subtraction would stop at the second byte of every header).
    pub fn validate_checkchum(&self) -> (r: (u8, u8))
        requires
            HEADER_CHECKSUM < self@.buffer.len(),
        ensures
            r.0 == self@.buffer[HEADER_CHECKSUM as int],
            r.1 == header_checksum(
                self@.buffer.subrange(TITLE_START as int, CHECKSUM_RANGE_END as int),
            ),
    {
        let orig = self.buffer[HEADER_CHECKSUM];
        let mut new: u8 = 0x01;
        let mut i: usize = TITLE_START;
        while i < CHECKSUM_RANGE_END
            invariant
                TITLE_START <= i <= CHECKSUM_RANGE_END,
                HEADER_CHECKSUM < self.buffer@.len(),
                new == header_checksum(self.buffer@.subrange(TITLE_START as int, i as int)),
            decreases CHECKSUM_RANGE_END - i,
        {
            let b = self.buffer[i];
            proof {
                let prev = self.buffer@.subrange(TITLE_START as int, i as int);
                let next = self.buffer@.subrange(TITLE_START as int, i + 1);
                assert(next.drop_last() =~= prev);
                let s = 1 - byte_sum(prev) - prev.len();
                lemma_wrapping_step(s, new, b);
            }
            new = new.wrapping_sub(b).wrapping_sub(1);
            i = i + 1;
        }
        (orig, new)
    }
}

proof fn lemma_wrapping_step(s: int, new: u8, b: u8)
    requires
        new == s % 256,
    ensures
        new.wrapping_sub(b).wrapping_sub(1u8)
            == (s - b - 1) % 256,
{
    assert((s % 256 - b - 1) % 256 == (s - b - 1) % 256) by (nonlinear_arith);
}


/// The cartridge size starts at 32 kB for code 0 and doubles with each code
/// up to 26.
pub proof fn lemma_cartridge_size_doubles(c: u8)
    requires
        c < 26,
    ensures
        cartridge_size_kb(0) == 32,
        cartridge_size_kb((c + 1) as u8) == 2 * cartridge_size_kb(c),
{
    vstd::arithmetic::power2::lemma2_to64();
    vstd::arithmetic::power2::lemma_pow2_unfold((c + 1) as nat);
    if c + 1 < 26 {
        vstd::arithmetic::power2::lemma_pow2_strictly_increases((c + 1) as nat, 26);
    }
}

/// The cartridge size is the 32-bit shift `32 << code` for every code that
/// can be shifted by.
pub proof fn lemma_cartridge_size_is_shift(c: u8)
    requires
        c < 32,
    ensures
        cartridge_size_kb(c) == 32u32 << c,
{
    if c < 27 {
        let c32: u32 = c as u32;
        assert(32u32 << c == 32u32 << c32) by (bit_vector)
            requires c32 == c;
        vstd::arithmetic::power2::lemma2_to64();
        if c < 26 {
            vstd::arithmetic::power2::lemma_pow2_strictly_increases(c as nat, 26);
        }
        vstd::bits::lemma_u32_shl_is_mul(32, c32);
    } else {
        assert(27 <= c < 32 ==> 32u32 << c == 0) by (bit_vector);
    }
}

proof fn lemma_byte_sum_update(bytes: Seq<u8>, i: int, v: u8)
    requires
        0 <= i < bytes.len(),
    ensures
        byte_sum(bytes.update(i, v)) == byte_sum(bytes) - bytes[i] + v,
    decreases bytes.len(),
{
    let u = bytes.update(i, v);
    if i == bytes.len() - 1 {
        assert(u.drop_last() =~= bytes.drop_last());
    } else {
        assert(u.drop_last() =~= bytes.drop_last().update(i, v));
        lemma_byte_sum_update(bytes.drop_last(), i, v);
    }
}

proof fn lemma_byte_sum_is_fold(bytes: Seq<u8>)
    ensures
        byte_sum(bytes) == bytes.fold_left(0int, |acc: int, b: u8| acc + b),
    decreases bytes.len(),
{
    if bytes.len() > 0 {
        lemma_byte_sum_is_fold(bytes.drop_last());
    }
}

/// The header checksum is one minus the sum of all bytes minus their count,
/// modulo 256; raising any one byte by `d` lowers the checksum by `d`
/// modulo 256; and a header of 24 zero bytes has checksum 233.
pub proof fn lemma_header_checksum_laws(bytes: Seq<u8>, i: int, v: u8)
    requires
        0 <= i < bytes.len(),
    ensures
        header_checksum(bytes)
            == (1 - bytes.fold_left(0int, |acc: int, b: u8| acc + b) - bytes.len()) % 256,
        (header_checksum(bytes.update(i, v)) + v - bytes[i] - header_checksum(bytes)) % 256 == 0,
        0 <= header_checksum(bytes) < 256,
        header_checksum(Seq::new(24, |k: int| 0u8)) == 233,
{
    lemma_byte_sum_is_fold(bytes);
    lemma_byte_sum_update(bytes, i, v);
    let a = 1 - byte_sum(bytes) - bytes.len();
    let d = v - bytes[i];
    assert(((a - d) % 256 + d - a % 256) % 256 == 0) by (nonlinear_arith);
    let z = Seq::new(24, |k: int| 0u8);
    lemma_byte_sum_zeros(24);
    assert(z =~= Seq::new(24, |k: int| 0u8));
}

proof fn lemma_byte_sum_zeros(n: nat)
    ensures
        byte_sum(Seq::new(n, |k: int| 0u8)) == 0,
    decreases n,
{
    if n > 0 {
        lemma_byte_sum_zeros((n - 1) as nat);
        assert(Seq::new(n, |k: int| 0u8).drop_last() =~= Seq::new((n - 1) as nat, |k: int| 0u8));
    }
}


/// Where the header fields lie in a cartridge image: the logo from `0x104`
/// (48 bytes, of which the getter hands out the first 47), the title
/// `0x134..0x143`, the CGB flag at `0x143`, the cartridge type at `0x147`,
/// the ROM size code at `0x148`, the destination code at `0x14A`, the checksum
/// over the 24 bytes `0x134..0x14C`, stored at `0x14D`.
pub proof fn lemma_header_layout()
    ensures
        LOGO_START == 0x104 && LOGO_END == 0x133,
        TITLE_START == 0x134 && TITLE_END == 0x143,
        CGB_FLAG == 0x143,
        CARTRIDGE_TYPE == 0x147,
        ROM_SIZE_CODE == 0x148,
        DESTINATION_CODE == 0x14A,
        CHECKSUM_RANGE_END - TITLE_START == 24,
        HEADER_CHECKSUM == 0x14D,
{
}

} // verus!
