use crate::mem::{ROM_BANK_SIZE, RAM_BANK_SIZE};
use vstd::prelude::*;
use vstd::utf8::{valid_utf8, decode_utf8};

verus! {

/// Length in bytes of the cartridge header (0x100-0x14F of the ROM).
pub const HEADER_SIZE: usize = 80;

/* Data stored in cart ROM at 0x100-0x14F */
pub struct CartHeader {
    pub entrypoint: [u8; 4],
    pub logo: [u8; 48],
    pub title: [u8; 16],
    pub license_new: [u8; 2],
    pub sgb: u8,
    pub cart_type: u8,
    pub rom_size: u8,
    pub ram_size: u8,
    pub destination: u8,
    pub license_old: u8,
    pub version: u8,
    pub header_checksum: u8,
    pub global_checksum: [u8; 2],
}

#[derive(Debug, PartialEq, Eq, Structural, Clone, Copy)]
pub enum CartType {
    RomOnly(),
    Mbc1(),
    Mbc2(),
    Mbc3(),
    Unknown(u8),
}

/// The controller named by the cartridge type byte.
pub open spec fn spec_cart_type(t: u8) -> CartType {
    if t == 0x00 || t == 0x08 || t == 0x09 {
        CartType::RomOnly()
    } else if t == 0x01 || t == 0x02 || t == 0x03 {
        CartType::Mbc1()
    } else if t == 0x05 || t == 0x06 {
        CartType::Mbc2()
    } else if 0x0F <= t <= 0x13 {
        CartType::Mbc3()
    } else {
        CartType::Unknown(t)
    }
}

/// The cartridge type codes: 0x00, 0x08, 0x09 are ROM only; 0x01-0x03 MBC1;
/// 0x05, 0x06 MBC2; 0x0F, 0x10, 0x11, 0x12, 0x13 MBC3; any other code is reported
/// back as unknown.
pub proof fn lemma_cart_type_codes(t: u8)
    ensures
        (spec_cart_type(t) == CartType::RomOnly()) <==> (t == 0x00 || t == 0x08 || t == 0x09),
        (spec_cart_type(t) == CartType::Mbc1()) <==> (t == 0x01 || t == 0x02 || t == 0x03),
        (spec_cart_type(t) == CartType::Mbc2()) <==> (t == 0x05 || t == 0x06),
        (spec_cart_type(t) == CartType::Mbc3()) <==> (t == 0x0F || t == 0x10 || t == 0x11 || t == 0x12 || t == 0x13),
        spec_cart_type(t) matches CartType::Unknown(u) ==> u == t,
{
}

/// The value of an ASCII hexadecimal digit.
pub open spec fn spec_hex_digit(c: u8) -> Option<u8> {
    if 0x30 <= c <= 0x39 {
        Some((c - 0x30) as u8)
    } else if 0x41 <= c <= 0x46 {
        Some((c - 0x41 + 10) as u8)
    } else if 0x61 <= c <= 0x66 {
        Some((c - 0x61 + 10) as u8)
    } else {
        None
    }
}

/// Two characters read as a hexadecimal byte: two digits, or `+` and one digit.
pub open spec fn spec_hex_byte(hi: u8, lo: u8) -> Option<u8> {
    match (spec_hex_digit(hi), spec_hex_digit(lo)) {
        (Some(h), Some(l)) => Some((16 * h + l) as u8),
        (None, Some(l)) => if hi == 0x2B { Some(l) } else { None },
        _ => None,
    }
}

/// ROM size for the size code `n`: 32KB shifted left by n in 32 bit signed arithmetic,
/// so code 16 gives i32::MIN and codes 17 to 31 give 0.
pub open spec fn spec_rom_size(n: u8) -> usize {
    if n <= 15 {
        vstd::arithmetic::power2::pow2((15 + n) as nat) as usize
    } else if n == 16 {
        (i32::MIN as int) as usize
    } else {
        0
    }
}

/// RAM size for the size codes 0-5.
pub open spec fn spec_ram_size(n: u8) -> usize {
    if n == 0 { 0 }
    else if n == 1 { 0x800 }
    else if n == 2 { 0x2000 }
    else if n == 3 { 0x8000 }
    else if n == 4 { 0x20000 }
    else { 0x10000 }
}

/// The title bytes: 11 when the new license code is in use (old code 0x33), else 16.
pub open spec fn spec_title_bytes(h: CartHeader) -> Seq<u8> {
    if h.license_old == 0x33 { h.title@.subrange(0, 11) } else { h.title@ }
}

/// `std::str::from_utf8`, with the string copied out. The standard library documents
/// that it accepts exactly the valid UTF-8 byte sequences; the characters are the
/// ones those bytes encode.
#[verifier::external_body]
fn utf8_to_string(bytes: &[u8]) -> (res: Option<String>)
    ensures
        res is Some <==> valid_utf8(bytes@),
        res matches Some(s) ==> s@ == decode_utf8(bytes@),
{
    match std::str::from_utf8(bytes) {
        Ok(s) => Some(String::from(s)),
        Err(_) => None,
    }
}

fn hex_digit(c: u8) -> (res: Option<u8>)
    ensures
        res == spec_hex_digit(c),
{
    if 0x30 <= c && c <= 0x39 {
        Some(c - 0x30)
    } else if 0x41 <= c && c <= 0x46 {
        Some(c - 0x41 + 10)
    } else if 0x61 <= c && c <= 0x66 {
        Some(c - 0x61 + 10)
    } else {
        None
    }
}

/// Reads two characters as an unsigned hexadecimal byte.
pub fn parse_hex_byte(hi: u8, lo: u8) -> (res: Option<u8>)
    ensures
        res == spec_hex_byte(hi, lo),
{
    match (hex_digit(hi), hex_digit(lo)) {
        (Some(h), Some(l)) => Some(16 * h + l),
        (None, Some(l)) => if hi == 0x2B { Some(l) } else { None },
        _ => None,
    }
}

impl CartHeader {
    /// The header from its 80 bytes.
    pub fn new(rom: Vec<u8>) -> (res: Self)
        requires
            rom@.len() == HEADER_SIZE,
        ensures
            res.entrypoint@ == rom@.subrange(0, 4),
            res.logo@ == rom@.subrange(4, 52),
            res.title@ == rom@.subrange(52, 68),
            res.license_new@ == rom@.subrange(68, 70),
            res.sgb == rom@[70],
            res.cart_type == rom@[71],
            res.rom_size == rom@[72],
            res.ram_size == rom@[73],
            res.destination == rom@[74],
            res.license_old == rom@[75],
            res.version == rom@[76],
            res.header_checksum == rom@[77],
            res.global_checksum@ == rom@.subrange(78, 80),
    {
        let mut logo = [0u8; 48];
        let mut i: usize = 0;
        while i < 48
            invariant
                i <= 48,
                rom@.len() == HEADER_SIZE,
                forall|k: int| 0 <= k < i ==> #[trigger] logo@[k] == rom@[4 + k],
            decreases 48 - i,
        {
            logo[i] = rom[4 + i];
            i += 1;
        }
        let mut title = [0u8; 16];
        let mut i: usize = 0;
        while i < 16
            invariant
                i <= 16,
                rom@.len() == HEADER_SIZE,
                forall|k: int| 0 <= k < i ==> #[trigger] title@[k] == rom@[52 + k],
            decreases 16 - i,
        {
            title[i] = rom[52 + i];
            i += 1;
        }
        let res = Self {
            entrypoint: [rom[0], rom[1], rom[2], rom[3]],
            logo,
            title,
            license_new: [rom[68], rom[69]],
            sgb: rom[70],
            cart_type: rom[71],
            rom_size: rom[72],
            ram_size: rom[73],
            destination: rom[74],
            license_old: rom[75],
            version: rom[76],
            header_checksum: rom[77],
            global_checksum: [rom[78], rom[79]],
        };
        assert(res.entrypoint@ =~= rom@.subrange(0, 4));
        assert(res.logo@ =~= rom@.subrange(4, 52));
        assert(res.title@ =~= rom@.subrange(52, 68));
        assert(res.license_new@ =~= rom@.subrange(68, 70));
        assert(res.global_checksum@ =~= rom@.subrange(78, 80));
        res
    }

    pub fn title(&self) -> (res: String)
        requires
            valid_utf8(spec_title_bytes(*self)),
        ensures
            res@ == decode_utf8(spec_title_bytes(*self)),
    {
        let n: usize = if self.license_old == 0x33 { 11 } else { 16 };
        let slice = self.title.as_slice();
        let mut bytes: Vec<u8> = Vec::new();
        let mut i: usize = 0;
        while i < n
            invariant
                i <= n,
                n == 11 || n == 16,
                slice@ == self.title@,
                bytes@ == self.title@.subrange(0, i as int),
            decreases n - i,
        {
            bytes.push(slice[i]);
            i += 1;
        }
        assert(bytes@ =~= spec_title_bytes(*self));
        match utf8_to_string(bytes.as_slice()) {
            Some(s) => s,
            None => String::new(),
        }
    }

    /// The licensee: the old code, or, where the old code is 0x33, the new code's two
    /// hexadecimal characters.
    pub fn license(&self) -> (res: u8)
        requires
            self.license_old == 0x33 ==> spec_hex_byte(self.license_new@[0], self.license_new@[1]) is Some,
        ensures
            res == if self.license_old != 0x33 {
                self.license_old
            } else {
                spec_hex_byte(self.license_new@[0], self.license_new@[1])->0
            },
    {
        if self.license_old != 0x33 {
            self.license_old
        } else {
            match parse_hex_byte(self.license_new[0], self.license_new[1]) {
                Some(v) => v,
                None => 0,
            }
        }
    }

    pub fn sgb_support(&self) -> (res: bool)
        ensures
            res == (self.sgb == 0x03),
    {
        self.sgb == 0x003
    }

    pub fn cart_type(&self) -> (res: CartType)
        ensures
            res == spec_cart_type(self.cart_type),
    {
        match self.cart_type {
            0x00 | 0x08 | 0x09 => CartType::RomOnly(),
            0x01 | 0x02 | 0x03 => CartType::Mbc1(),
            0x05 | 0x06 => CartType::Mbc2(),
            0x0F | 0x10 | 0x11 | 0x12 | 0x13 => CartType::Mbc3(),
            other => CartType::Unknown(other),
        }
    }

    /// The ROM size: 32KB shifted left by the size code.
    pub fn rom_size(&self) -> (res: usize)
        requires
            self.rom_size < 32,
        ensures
            res == spec_rom_size(self.rom_size),
    {
        let n = self.rom_size;
        if n <= 15 {
            proof {
                vstd::arithmetic::power2::lemma2_to64();
                if n < 16 {
                    vstd::arithmetic::power2::lemma_pow2_strictly_increases((15 + n) as nat, 31);
                }
                vstd::bits::lemma_u64_shl_is_mul(1, (15 + n) as u64);
            }
            (1u64 << (15 + n as u64)) as usize
        } else if n == 16 {
            #[verifier::truncate] (i32::MIN as usize)
        } else {
            0
        }
    }

    pub fn rom_banks(&self) -> (res: usize)
        requires
            self.rom_size < 32,
        ensures
            res == spec_rom_size(self.rom_size) / (ROM_BANK_SIZE as usize),
    {
        self.rom_size() / ROM_BANK_SIZE
    }

    pub fn ram_size(&self) -> (res: usize)
        requires
            self.ram_size <= 5,
        ensures
            res == spec_ram_size(self.ram_size),
    {
        match self.ram_size {
            0x00 => 0,
            0x01 => 0x800,  // 2KB
            0x02 => 0x2000,  // 8KB
            0x03 => 0x8000,  // 32KB
            0x04 => 0x20000,  // 128KB
            _ => 0x10000,  // 64KB
        }
    }

    pub fn ram_banks(&self) -> (res: usize)
        requires
            self.ram_size <= 5,
        ensures
            res == spec_ram_size(self.ram_size) / (RAM_BANK_SIZE as usize),
    {
        self.ram_size() / RAM_BANK_SIZE
    }

    pub fn is_japan(&self) -> (res: bool)
        ensures
            res == (self.destination == 0x00),
    {
        self.destination == 0x00
    }

    pub fn checksum(&self) -> (res: u8)
        ensures
            res == self.header_checksum,
    {
        self.header_checksum
    }
}

} // verus!
