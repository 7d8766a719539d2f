//! iNES (.nes) ROM header parser.
//!
//! See https://www.nesdev.org/wiki/INES for the format spec.

use vstd::prelude::*;
use crate::error::EmulatorError;

verus! {

#[derive(Clone, Copy, Debug, PartialEq, Eq, Structural)]
pub enum Mirroring {
    Horizontal,
    Vertical,
    FourScreen,
}

#[derive(Clone, Copy, Debug, PartialEq, Eq, Structural)]
pub struct RomInfo {
    pub mapper: u8,
    pub prg_rom_size: usize,
    pub chr_rom_size: usize,
    pub mirroring: Mirroring,
    pub has_battery: bool,
}

pub const HEADER_SIZE: usize = 16;
pub const PRG_BANK_SIZE: usize = 16 * 1024;
pub const CHR_BANK_SIZE: usize = 8 * 1024;

/// The four magic bytes `NES\x1A` that open every iNES file.
pub open spec fn magic() -> Seq<u8> {
    seq![0x4eu8, 0x45u8, 0x53u8, 0x1au8]
}

/// Whether the ROM starts with the iNES magic.
pub open spec fn has_magic(rom: Seq<u8>) -> bool {
    rom.len() >= 4 && rom.take(4) == magic()
}

/// Mirroring selected by header byte 6: the four-screen bit (3) wins over
/// the vertical bit (0); with neither set the layout is horizontal.
pub open spec fn mirroring_of(flags6: u8) -> Mirroring {
    if flags6 & 0b0000_1000 != 0 {
        Mirroring::FourScreen
    } else if flags6 & 0b0000_0001 != 0 {
        Mirroring::Vertical
    } else {
        Mirroring::Horizontal
    }
}

/// The mapper number: its low nibble is the high nibble of byte 6, its
/// high nibble the high nibble of byte 7.
pub open spec fn mapper_of(flags6: u8, flags7: u8) -> u8 {
    (flags7 & 0b1111_0000) | (flags6 >> 4u8)
}

/// What a header with enough bytes describes: byte 4 counts 16 KiB PRG
/// banks, byte 5 counts 8 KiB CHR banks.
pub open spec fn header_info(rom: Seq<u8>) -> RomInfo {
    RomInfo {
        mapper: mapper_of(rom[6], rom[7]),
        prg_rom_size: (16384 * rom[4]) as usize,
        chr_rom_size: (8192 * rom[5]) as usize,
        mirroring: mirroring_of(rom[6]),
        has_battery: rom[6] & 0b0000_0010 != 0,
    }
}

/// The smallest file size that holds the 16-byte header and the PRG and CHR
/// banks that the header announces.
pub open spec fn required_len(rom: Seq<u8>) -> int {
    16 + 16384 * rom[4] + 8192 * rom[5]
}

/// The outcome of parsing `rom`: a file shorter than a header, or than the
/// banks it announces, is too small (reporting its length); one without the
/// magic is not an iNES file; any other gives the header's description.
pub open spec fn spec_parse_header(rom: Seq<u8>) -> Result<RomInfo, EmulatorError> {
    if rom.len() < HEADER_SIZE {
        Err(EmulatorError::RomTooSmall(rom.len() as usize))
    } else if !has_magic(rom) {
        Err(EmulatorError::InvalidINesHeader)
    } else if rom.len() < required_len(rom) {
        Err(EmulatorError::RomTooSmall(rom.len() as usize))
    } else {
        Ok(header_info(rom))
    }
}

pub fn parse_header(rom: &[u8]) -> (r: Result<RomInfo, EmulatorError>)
    ensures
        r == spec_parse_header(rom@),
{
    if rom.len() < HEADER_SIZE {
        return Err(EmulatorError::RomTooSmall(rom.len()));
    }
    if !(rom[0] == 0x4e && rom[1] == 0x45 && rom[2] == 0x53 && rom[3] == 0x1a) {
        proof {
            if has_magic(rom@) {
                assert(rom@.take(4)[0] == rom@[0]);
                assert(rom@.take(4)[1] == rom@[1]);
                assert(rom@.take(4)[2] == rom@[2]);
                assert(rom@.take(4)[3] == rom@[3]);
            }
        }
        return Err(EmulatorError::InvalidINesHeader);
    }
    assert(rom@.take(4) =~= magic());

    let prg_banks = rom[4] as usize;
    let chr_banks = rom[5] as usize;
    let flags6 = rom[6];
    let flags7 = rom[7];

    let prg_rom_size = prg_banks * PRG_BANK_SIZE;
    let chr_rom_size = chr_banks * CHR_BANK_SIZE;

    let mirroring = if flags6 & 0b0000_1000 != 0 {
        Mirroring::FourScreen
    } else if flags6 & 0b0000_0001 != 0 {
        Mirroring::Vertical
    } else {
        Mirroring::Horizontal
    };
    let has_battery = flags6 & 0b0000_0010 != 0;
    let mapper = (flags7 & 0b1111_0000) | (flags6 >> 4u8);

    let expected_min = HEADER_SIZE + prg_rom_size + chr_rom_size;
    if rom.len() < expected_min {
        return Err(EmulatorError::RomTooSmall(rom.len()));
    }

    Ok(RomInfo { mapper, prg_rom_size, chr_rom_size, mirroring, has_battery })
}

/// The header bytes of the smallest NROM image: one 16 KiB PRG bank, one
/// 8 KiB CHR bank, mapper 0, horizontal mirroring, no battery.
pub open spec fn minimal_nrom_header() -> Seq<u8> {
    seq![0x4eu8, 0x45u8, 0x53u8, 0x1au8, 1u8, 1u8, 0u8, 0u8, 0u8, 0u8, 0u8, 0u8, 0u8, 0u8, 0u8, 0u8]
}

/// The header followed by zeroed PRG and CHR banks.
pub open spec fn minimal_nrom_bytes() -> Seq<u8> {
    minimal_nrom_header() + Seq::new((PRG_BANK_SIZE + CHR_BANK_SIZE) as nat, |i: int| 0u8)
}

/// A synthetic, all-zero NROM image with a valid iNES header.
pub fn make_minimal_nrom() -> (rom: Vec<u8>)
    ensures
        rom@ == minimal_nrom_bytes(),
{
    let mut rom: Vec<u8> = Vec::new();
    rom.push(0x4e);
    rom.push(0x45);
    rom.push(0x53);
    rom.push(0x1a);
    rom.push(1);  // 1 x 16 KB PRG
    rom.push(1);  // 1 x 8 KB CHR
    rom.push(0);  // flags 6: mapper 0, horizontal mirror, no battery
    rom.push(0);  // flags 7
    let mut i: usize = 0;
    while i < 8 + PRG_BANK_SIZE + CHR_BANK_SIZE
        invariant
            i <= 8 + PRG_BANK_SIZE + CHR_BANK_SIZE,
            rom@ == seq![0x4eu8, 0x45u8, 0x53u8, 0x1au8, 1u8, 1u8, 0u8, 0u8] + Seq::new(
                i as nat,
                |j: int| 0u8,
            ),
        decreases 8 + PRG_BANK_SIZE + CHR_BANK_SIZE - i,
    {
        rom.push(0);
        i = i + 1;
        assert(rom@ =~= seq![0x4eu8, 0x45u8, 0x53u8, 0x1au8, 1u8, 1u8, 0u8, 0u8] + Seq::new(
            i as nat,
            |j: int| 0u8,
        ));
    }
    assert(rom@ =~= minimal_nrom_bytes());
    rom
}

/// The mapper number read from the header is `16 * (byte7 / 16) + byte6 / 16`,
/// so every mapper number `m` is read back from `byte6 = (m % 16) * 16`,
/// `byte7 = (m / 16) * 16`.
pub proof fn lemma_mapper_nibbles(flags6: u8, flags7: u8, m: u8)
    ensures
        mapper_of(flags6, flags7) == (flags7 / 16) * 16 + flags6 / 16,
        mapper_of(((m % 16) * 16) as u8, ((m / 16) * 16) as u8) == m,
{
    assert((flags7 & 0xf0) | (flags6 >> 4u8) == (flags7 / 16) * 16 + flags6 / 16) by (bit_vector);
    assert((((m / 16) * 16) as u8 & 0xf0) | ((((m % 16) * 16) as u8) >> 4u8) == m) by (bit_vector);
}

/// Parsing reads only the header and the file's length: two files with the
/// same first sixteen bytes and the same length parse alike, and bytes
/// appended to a file that parses do not change what it describes.
pub proof fn lemma_parse_reads_only_header(rom: Seq<u8>, other: Seq<u8>, extra: Seq<u8>)
    ensures
        rom.len() >= HEADER_SIZE && other.len() == rom.len() && other.take(16) == rom.take(16)
            ==> spec_parse_header(other) == spec_parse_header(rom),
        spec_parse_header(rom) is Ok ==> spec_parse_header(rom + extra) == spec_parse_header(rom),
{
    if rom.len() >= HEADER_SIZE && other.len() == rom.len() && other.take(16) == rom.take(16) {
        assert forall|i: int| 0 <= i < 16 implies other[i] == rom[i] by {
            assert(other.take(16)[i] == rom.take(16)[i]);
        }
        assert(other.take(4) =~= rom.take(4));
    }
    if spec_parse_header(rom) is Ok {
        let longer = rom + extra;
        assert(longer.take(4) =~= rom.take(4));
        assert forall|i: int| 0 <= i < 16 implies longer[i] == rom[i] by {}
    }
}


/// What parsing a file means, byte by byte: a file under sixteen bytes is
/// too small (reporting its length); one that does not start with the bytes
/// `4E 45 53 1A` is not an iNES file; one shorter than the 16-byte header
/// plus `byte4` banks of 16 KiB and `byte5` banks of 8 KiB is too small;
/// every other file parses, with `byte4` PRG banks of 16384 bytes and
/// `byte5` CHR banks of 8192 bytes, the mapper's high nibble from byte 7's
/// high nibble and its low nibble from byte 6's high nibble, four-screen
/// mirroring when bit 3 of byte 6 is set, else vertical when bit 0 is set,
/// else horizontal, and a battery when bit 1 of byte 6 is set.
pub proof fn lemma_parse_header_meaning(rom: Seq<u8>)
    ensures
        rom.len() < 16 ==> spec_parse_header(rom) == Err::<RomInfo, EmulatorError>(
            EmulatorError::RomTooSmall(rom.len() as usize),
        ),
        rom.len() >= 16 && !(rom[0] == 0x4e && rom[1] == 0x45 && rom[2] == 0x53 && rom[3] == 0x1a)
            ==> spec_parse_header(rom) == Err::<RomInfo, EmulatorError>(
            EmulatorError::InvalidINesHeader,
        ),
        rom.len() >= 16 && rom[0] == 0x4e && rom[1] == 0x45 && rom[2] == 0x53 && rom[3] == 0x1a
            && rom.len() < 16 + 16384 * rom[4] + 8192 * rom[5] ==> spec_parse_header(rom) == Err::<
            RomInfo,
            EmulatorError,
        >(EmulatorError::RomTooSmall(rom.len() as usize)),
        rom.len() >= 16 && rom[0] == 0x4e && rom[1] == 0x45 && rom[2] == 0x53 && rom[3] == 0x1a
            && rom.len() >= 16 + 16384 * rom[4] + 8192 * rom[5] ==> {
            &&& spec_parse_header(rom) is Ok
            &&& spec_parse_header(rom)->Ok_0.prg_rom_size == 16384 * rom[4]
            &&& spec_parse_header(rom)->Ok_0.chr_rom_size == 8192 * rom[5]
            &&& spec_parse_header(rom)->Ok_0.mapper == (rom[7] / 16) * 16 + rom[6] / 16
            &&& spec_parse_header(rom)->Ok_0.has_battery == ((rom[6] / 2) % 2 == 1)
            &&& spec_parse_header(rom)->Ok_0.mirroring == if (rom[6] / 8) % 2 == 1 {
                Mirroring::FourScreen
            } else if rom[6] % 2 == 1 {
                Mirroring::Vertical
            } else {
                Mirroring::Horizontal
            }
        },
{
    if rom.len() >= 16 {
        let f6 = rom[6];
        let f7 = rom[7];
        if rom[0] == 0x4e && rom[1] == 0x45 && rom[2] == 0x53 && rom[3] == 0x1a {
            assert(rom.take(4) =~= magic());
        } else {
            if has_magic(rom) {
                assert(rom.take(4)[0] == rom[0]);
                assert(rom.take(4)[1] == rom[1]);
                assert(rom.take(4)[2] == rom[2]);
                assert(rom.take(4)[3] == rom[3]);
            }
        }
        assert((f7 & 0xf0) | (f6 >> 4u8) == (f7 / 16) * 16 + f6 / 16) by (bit_vector);
        assert((f6 & 8u8 != 0) == ((f6 / 8) % 2 == 1)) by (bit_vector);
        assert((f6 & 1u8 != 0) == (f6 % 2 == 1)) by (bit_vector);
        assert((f6 & 2u8 != 0) == ((f6 / 2) % 2 == 1)) by (bit_vector);
    }
}


/// The synthetic NROM image is 24592 bytes — the 16-byte header, one 16 KiB
/// PRG bank and one 8 KiB CHR bank — and parses as mapper 0 with those bank
/// sizes, horizontal mirroring and no battery.
pub proof fn lemma_minimal_nrom_parses()
    ensures
        minimal_nrom_bytes().len() == 24592,
        spec_parse_header(minimal_nrom_bytes()) == Ok::<RomInfo, EmulatorError>(
            RomInfo {
                mapper: 0,
                prg_rom_size: 16384,
                chr_rom_size: 8192,
                mirroring: Mirroring::Horizontal,
                has_battery: false,
            },
        ),
{
    let rom = minimal_nrom_bytes();
    lemma_parse_header_meaning(rom);
    assert(rom[0] == 0x4e && rom[1] == 0x45 && rom[2] == 0x53 && rom[3] == 0x1a);
    assert(rom[4] == 1 && rom[5] == 1 && rom[6] == 0 && rom[7] == 0);
}

} // verus!
