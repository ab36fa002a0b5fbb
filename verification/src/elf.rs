//! The start of an ELF file, as far as a loader must read it to know
//! whether it can load the file.

use vstd::prelude::*;

verus! {

pub const EI_MAG0: usize = 0;

pub const EI_MAG1: usize = 1;

pub const EI_MAG2: usize = 2;

pub const EI_MAG3: usize = 3;

pub const EI_CLASS: usize = 4;

pub const EI_DATA: usize = 5;

pub const EI_VERSION: usize = 6;

pub const EI_OSABI: usize = 7;

pub const EI_ABIVERSION: usize = 8;

pub const EI_PAD: usize = 9;

/// The number of identification bytes that are read.
pub const E_IDENT_SZ: usize = 9;

/// The class byte of a 64-bit ELF file.
pub const ELFCLASS64: u8 = 2;

/// An ELF file: its bytes, and the header that was read from them.
pub struct Elf<'a> {
    pub bytes: &'a [u8],
    pub header: Header,
}

/// The header of a 64-bit ELF file.
pub struct Header {
    pub e_ident: [u8; E_IDENT_SZ],
}

/// Why bytes are not an ELF file that can be loaded.
#[derive(Debug, Clone, Copy, PartialEq, Eq, Structural)]
pub enum ParseErr {
    /// The file does not start with the four bytes of the ELF magic
    /// number.
    MagicNumber,
    /// The file is not of the 64-bit class.
    EIClass,
    /// The file ends before its identification does.
    InputBounds,
}

/// The byte order of a file.
#[derive(Debug, Clone, Copy, PartialEq, Eq, Structural)]
pub enum Endianness {
    Big,
    Little,
}

/// Whether `bytes` start with 0x7F and the letters E, L, F.
pub open spec fn has_magic(bytes: Seq<u8>) -> bool {
    &&& bytes[EI_MAG0 as int] == 0x7F
    &&& bytes[EI_MAG1 as int] == 0x45
    &&& bytes[EI_MAG2 as int] == 0x4C
    &&& bytes[EI_MAG3 as int] == 0x46
}

/// What keeps `bytes` from being read as a header, if anything: their
/// length is looked at first, then the magic number, then the class.
pub open spec fn parse_error(bytes: Seq<u8>) -> Option<ParseErr> {
    if bytes.len() < E_IDENT_SZ {
        Some(ParseErr::InputBounds)
    } else if !has_magic(bytes) {
        Some(ParseErr::MagicNumber)
    } else if bytes[EI_CLASS as int] != ELFCLASS64 {
        Some(ParseErr::EIClass)
    } else {
        None
    }
}

/// Reads `bytes` as an ELF file.
pub fn load_elf<'a>(bytes: &'a [u8]) -> (res: Result<Elf<'a>, ParseErr>)
    ensures
        match parse_error(bytes@) {
            Some(e) => res matches Err(f) && f == e,
            None => res matches Ok(elf) && elf.bytes@ == bytes@ && elf.header.e_ident@
                == bytes@.subrange(0, E_IDENT_SZ as int),
        },
{
    Elf::parse(bytes)
}

impl<'a> Elf<'a> {
    /// Reads `bytes` as an ELF file: the header is read, and the bytes
    /// are kept for what follows it.
    pub fn parse(bytes: &'a [u8]) -> (res: Result<Elf<'a>, ParseErr>)
        ensures
            match parse_error(bytes@) {
                Some(e) => res matches Err(f) && f == e,
                None => res matches Ok(elf) && elf.bytes@ == bytes@ && elf.header.e_ident@
                    == bytes@.subrange(0, E_IDENT_SZ as int),
            },
    {
        match Header::parse(bytes) {
            Ok(header) => Ok(Elf { bytes, header }),
            Err(e) => Err(e),
        }
    }
}

impl Header {
    /// Reads the identification from the start of `bytes`.
    pub fn parse(bytes: &[u8]) -> (res: Result<Header, ParseErr>)
        ensures
            match parse_error(bytes@) {
                Some(e) => res matches Err(f) && f == e,
                None => res matches Ok(h) && h.e_ident@ == bytes@.subrange(0, E_IDENT_SZ as int),
            },
    {
        if bytes.len() < E_IDENT_SZ {
            return Err(ParseErr::InputBounds);
        }
        let e_ident: [u8; E_IDENT_SZ] = [
            bytes[0],
            bytes[1],
            bytes[2],
            bytes[3],
            bytes[4],
            bytes[5],
            bytes[6],
            bytes[7],
            bytes[8],
        ];
        assert(e_ident@ =~= bytes@.subrange(0, E_IDENT_SZ as int));
        if !(e_ident[EI_MAG0] == 0x7F && e_ident[EI_MAG1] == 0x45 && e_ident[EI_MAG2] == 0x4C
            && e_ident[EI_MAG3] == 0x46) {
            return Err(ParseErr::MagicNumber);
        }
        let e_typ = e_ident[EI_CLASS];
        if e_typ != ELFCLASS64 {
            return Err(ParseErr::EIClass);
        }
        Ok(Header { e_ident })
    }
}

} // verus!
