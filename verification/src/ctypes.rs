//! The fixed-layout records of the format and their decoders.
//!
//! A record is read from the start of a byte slice: the slice must hold the
//! whole record, then each field is decoded at its offset, then the record's
//! own constraints are checked.

use crate::error::{collect, lemma_collect_prefix_err, ErrorKind, HeaderField, ParseError, Record};
use crate::read::{le_u16, le_u32, le_u64, signed32, signed8, to_i8};
use vstd::prelude::*;

verus! {

/// 64-bit file class.
pub const ELFCLASS64: u8 = 2;

/// Little-endian data encoding.
pub const ELFDATA2LSB: u8 = 1;

/// Current file format version.
pub const EV_CURRENT: u8 = 1;

/// System V ABI.
pub const ELFOSABI_SYSV: u8 = 0;

/// Core file type.
pub const ET_CORE: u16 = 4;

/// AMD x86-64 machine architecture.
pub const EM_X86_64: u16 = 62;

/// Loadable segment.
pub const PT_LOAD: u32 = 1;

/// Note sections.
pub const PT_NOTE: u32 = 4;

/// Thread status.
pub const NT_PRSTATUS: u32 = 1;

/// Process info.
pub const NT_PRPSINFO: u32 = 3;

/// File map.
pub const NT_FILE: u32 = 0x4649_4c45;

/// Size of `Elf64_Ehdr` in bytes.
pub const EHDR_SIZE: usize = 64;

/// Size of `Elf64_Phdr` in bytes.
pub const PHDR_SIZE: usize = 56;

/// Size of `Elf64_Nhdr` in bytes.
pub const NHDR_SIZE: usize = 12;

/// Size of `elf_prpsinfo` in bytes.
pub const PRPSINFO_SIZE: usize = 136;

/// Size of `elf_prstatus` in bytes, without the padding that ends it.
pub const PRSTATUS_SIZE: usize = 332;

/// structview's `Error`: why a view could not be made. It has one variant,
/// for data that is too short, and nothing is read from it here.
#[verifier::external_type_specification]
#[verifier::external_body]
pub struct ExViewError(structview::Error);

/// Views the start of `data` as structview's `u16_le` (`View::view`) and
/// decodes it (`U16::to_int`). The view fails exactly when `data` has fewer
/// than two bytes; the value is the first two bytes read little-endian.
#[verifier::external_body]
fn view_u16_le(data: &[u8]) -> (r: Result<u16, structview::Error>)
    ensures
        r is Ok <==> data@.len() >= 2,
        r is Ok ==> r->Ok_0 == le_u16(data@, 0),
{
    match <structview::u16_le as structview::View>::view(data) {
        Ok(v) => Ok(v.to_int()),
        Err(e) => Err(e),
    }
}

/// Views the start of `data` as structview's `u32_le` (`View::view`) and
/// decodes it (`U32::to_int`). The view fails exactly when `data` has fewer
/// than four bytes; the value is the first four bytes read little-endian.
#[verifier::external_body]
fn view_u32_le(data: &[u8]) -> (r: Result<u32, structview::Error>)
    ensures
        r is Ok <==> data@.len() >= 4,
        r is Ok ==> r->Ok_0 == le_u32(data@, 0),
{
    match <structview::u32_le as structview::View>::view(data) {
        Ok(v) => Ok(v.to_int()),
        Err(e) => Err(e),
    }
}

/// Views the start of `data` as structview's `u64_le` (`View::view`) and
/// decodes it (`U64::to_int`). The view fails exactly when `data` has fewer
/// than eight bytes; the value is the first eight bytes read little-endian.
#[verifier::external_body]
fn view_u64_le(data: &[u8]) -> (r: Result<u64, structview::Error>)
    ensures
        r is Ok <==> data@.len() >= 8,
        r is Ok ==> r->Ok_0 == le_u64(data@, 0),
{
    match <structview::u64_le as structview::View>::view(data) {
        Ok(v) => Ok(v.to_int()),
        Err(e) => Err(e),
    }
}

/// Views the start of `data` as structview's `i32_le` (`View::view`) and
/// decodes it (`I32::to_int`). The view fails exactly when `data` has fewer
/// than four bytes; the value is the first four bytes read little-endian
/// and taken as two's complement.
#[verifier::external_body]
fn view_i32_le(data: &[u8]) -> (r: Result<i32, structview::Error>)
    ensures
        r is Ok <==> data@.len() >= 4,
        r is Ok ==> r->Ok_0 == signed32(le_u32(data@, 0)),
{
    match <structview::i32_le as structview::View>::view(data) {
        Ok(v) => Ok(v.to_int()),
        Err(e) => Err(e),
    }
}

/// The `u16` field at offset `at` of a record that starts `data`.
fn field_u16(data: &[u8], at: usize, record: Record) -> (r: Result<u16, ParseError>)
    ensures
        at + 2 <= data@.len() ==> r == Ok::<u16, ParseError>(le_u16(data@, at as int)),
        at + 2 > data@.len() ==> r == Err::<u16, ParseError>(ParseError::truncated(record)),
{
    if at > data.len() {
        return Err(ParseError::not_enough_data(record));
    }
    match view_u16_le(&data[at..data.len()]) {
        Ok(v) => Ok(v),
        Err(_) => Err(ParseError::not_enough_data(record)),
    }
}

/// The `u32` field at offset `at` of a record that starts `data`.
fn field_u32(data: &[u8], at: usize, record: Record) -> (r: Result<u32, ParseError>)
    ensures
        at + 4 <= data@.len() ==> r == Ok::<u32, ParseError>(le_u32(data@, at as int)),
        at + 4 > data@.len() ==> r == Err::<u32, ParseError>(ParseError::truncated(record)),
{
    if at > data.len() {
        return Err(ParseError::not_enough_data(record));
    }
    match view_u32_le(&data[at..data.len()]) {
        Ok(v) => Ok(v),
        Err(_) => Err(ParseError::not_enough_data(record)),
    }
}

/// The `u64` field at offset `at` of a record that starts `data`.
fn field_u64(data: &[u8], at: usize, record: Record) -> (r: Result<u64, ParseError>)
    ensures
        at + 8 <= data@.len() ==> r == Ok::<u64, ParseError>(le_u64(data@, at as int)),
        at + 8 > data@.len() ==> r == Err::<u64, ParseError>(ParseError::truncated(record)),
{
    if at > data.len() {
        return Err(ParseError::not_enough_data(record));
    }
    match view_u64_le(&data[at..data.len()]) {
        Ok(v) => Ok(v),
        Err(_) => Err(ParseError::not_enough_data(record)),
    }
}

/// The `i32` field at offset `at` of a record that starts `data`.
fn field_i32(data: &[u8], at: usize, record: Record) -> (r: Result<i32, ParseError>)
    ensures
        at + 4 <= data@.len() ==> r == Ok::<i32, ParseError>(signed32(le_u32(data@, at as int))),
        at + 4 > data@.len() ==> r == Err::<i32, ParseError>(ParseError::truncated(record)),
{
    if at > data.len() {
        return Err(ParseError::not_enough_data(record));
    }
    match view_i32_le(&data[at..data.len()]) {
        Ok(v) => Ok(v),
        Err(_) => Err(ParseError::not_enough_data(record)),
    }
}

/// The error for a file header field that holds `got` where `expected` is
/// required.
pub open spec fn invalid_value(field: HeaderField, got: u32, expected: u32) -> ParseError {
    ParseError { kind: ErrorKind::InvalidValue { field, got, expected } }
}

/// What comparing a file header field with its required value gives.
pub open spec fn spec_expect(field: HeaderField, got: u32, expected: u32) -> Result<
    (),
    ParseError,
> {
    if got == expected {
        Ok(())
    } else {
        Err(invalid_value(field, got, expected))
    }
}

/// Accepts `got` only if it is `expected`.
pub fn expect(field: HeaderField, got: u32, expected: u32) -> (r: Result<(), ParseError>)
    ensures
        r == spec_expect(field, got, expected),
{
    if got == expected {
        Ok(())
    } else {
        Err(ParseError::new(ErrorKind::InvalidValue { field, got, expected }))
    }
}

/// The ELF file header.
#[allow(missing_docs)]
#[derive(Clone, Copy, Debug)]
pub struct Elf64Ehdr {
    /// ELF "magic number" and the identification bytes that follow it.
    pub e_ident: [u8; 16],
    pub e_type: u16,
    pub e_machine: u16,
    pub e_version: u32,
    /// Entry point virtual address.
    pub e_entry: u64,
    /// Program header table file offset.
    pub e_phoff: u64,
    /// Section header table file offset.
    pub e_shoff: u64,
    pub e_flags: u32,
    pub e_ehsize: u16,
    pub e_phentsize: u16,
    pub e_phnum: u16,
    pub e_shentsize: u16,
    pub e_shnum: u16,
    pub e_shstrndx: u16,
}

impl Elf64Ehdr {
    /// The header that the first 64 bytes of `data` hold.
    pub open spec fn at(data: Seq<u8>) -> Elf64Ehdr {
        Elf64Ehdr {
            e_ident: [data[0], data[1], data[2], data[3], data[4], data[5], data[6], data[7], data[8], data[9], data[10], data[11], data[12], data[13], data[14], data[15]],
            e_type: le_u16(data, 16),
            e_machine: le_u16(data, 18),
            e_version: le_u32(data, 20),
            e_entry: le_u64(data, 24),
            e_phoff: le_u64(data, 32),
            e_shoff: le_u64(data, 40),
            e_flags: le_u32(data, 48),
            e_ehsize: le_u16(data, 52),
            e_phentsize: le_u16(data, 54),
            e_phnum: le_u16(data, 56),
            e_shentsize: le_u16(data, 58),
            e_shnum: le_u16(data, 60),
            e_shstrndx: le_u16(data, 62),
        }
    }

    /// Whether the header starts with `0x7f 'E' 'L' 'F'`.
    pub open spec fn has_magic(self) -> bool {
        &&& self.e_ident[0] == 0x7f
        &&& self.e_ident[1] == 0x45
        &&& self.e_ident[2] == 0x4c
        &&& self.e_ident[3] == 0x46
    }

    /// The first four bytes of the header.
    pub open spec fn magic(self) -> [u8; 4] {
        [self.e_ident[0], self.e_ident[1], self.e_ident[2], self.e_ident[3]]
    }

    /// The first constraint that the header breaks, in the order magic,
    /// class, data encoding, identification version, OS ABI, file type,
    /// machine, file version, header size, program header size, section
    /// header size.
    pub open spec fn check(self) -> Result<(), ParseError> {
        if !self.has_magic() {
            Err(ParseError { kind: ErrorKind::InvalidMagic { magic: self.magic() } })
        } else if self.e_ident[4] != ELFCLASS64 {
            Err(invalid_value(HeaderField::IdentClass, self.e_ident[4] as u32, ELFCLASS64 as u32))
        } else if self.e_ident[5] != ELFDATA2LSB {
            Err(invalid_value(HeaderField::IdentData, self.e_ident[5] as u32, ELFDATA2LSB as u32))
        } else if self.e_ident[6] != EV_CURRENT {
            Err(invalid_value(HeaderField::IdentVersion, self.e_ident[6] as u32, EV_CURRENT as u32))
        } else if self.e_ident[7] != ELFOSABI_SYSV {
            Err(invalid_value(HeaderField::IdentOsabi, self.e_ident[7] as u32, ELFOSABI_SYSV as u32))
        } else if self.e_type != ET_CORE {
            Err(invalid_value(HeaderField::Type, self.e_type as u32, ET_CORE as u32))
        } else if self.e_machine != EM_X86_64 {
            Err(invalid_value(HeaderField::Machine, self.e_machine as u32, EM_X86_64 as u32))
        } else if self.e_version != EV_CURRENT as u32 {
            Err(invalid_value(HeaderField::Version, self.e_version, EV_CURRENT as u32))
        } else if self.e_ehsize != 64 {
            Err(invalid_value(HeaderField::Ehsize, self.e_ehsize as u32, 64))
        } else if self.e_phentsize != 56 {
            Err(invalid_value(HeaderField::Phentsize, self.e_phentsize as u32, 56))
        } else if self.e_shentsize != 64 {
            Err(invalid_value(HeaderField::Shentsize, self.e_shentsize as u32, 64))
        } else {
            Ok(())
        }
    }

    /// What parsing a file header from the start of `data` gives.
    pub open spec fn spec_parse(data: Seq<u8>) -> Result<Elf64Ehdr, ParseError> {
        if data.len() < EHDR_SIZE {
            Err(ParseError::truncated(Record::Elf64Ehdr))
        } else {
            match Elf64Ehdr::at(data).check() {
                Err(e) => Err(e),
                Ok(_) => Ok(Elf64Ehdr::at(data)),
            }
        }
    }

    /// Reads the fields of a file header from the start of `data`.
    pub fn decode(data: &[u8]) -> (r: Result<Elf64Ehdr, ParseError>)
        ensures
            data@.len() >= EHDR_SIZE ==> r == Ok::<Elf64Ehdr, ParseError>(Elf64Ehdr::at(data@)),
            data@.len() < EHDR_SIZE ==> r == Err::<Elf64Ehdr, ParseError>(
                ParseError::truncated(Record::Elf64Ehdr),
            ),
    {
        if data.len() < EHDR_SIZE {
            return Err(ParseError::not_enough_data(Record::Elf64Ehdr));
        }
        let header = Elf64Ehdr {
            e_ident: [data[0], data[1], data[2], data[3], data[4], data[5], data[6], data[7], data[8], data[9], data[10], data[11], data[12], data[13], data[14], data[15]],
            e_type: field_u16(data, 16, Record::Elf64Ehdr)?,
            e_machine: field_u16(data, 18, Record::Elf64Ehdr)?,
            e_version: field_u32(data, 20, Record::Elf64Ehdr)?,
            e_entry: field_u64(data, 24, Record::Elf64Ehdr)?,
            e_phoff: field_u64(data, 32, Record::Elf64Ehdr)?,
            e_shoff: field_u64(data, 40, Record::Elf64Ehdr)?,
            e_flags: field_u32(data, 48, Record::Elf64Ehdr)?,
            e_ehsize: field_u16(data, 52, Record::Elf64Ehdr)?,
            e_phentsize: field_u16(data, 54, Record::Elf64Ehdr)?,
            e_phnum: field_u16(data, 56, Record::Elf64Ehdr)?,
            e_shentsize: field_u16(data, 58, Record::Elf64Ehdr)?,
            e_shnum: field_u16(data, 60, Record::Elf64Ehdr)?,
            e_shstrndx: field_u16(data, 62, Record::Elf64Ehdr)?,
        };
        assert(header.e_ident@ =~= Elf64Ehdr::at(data@).e_ident@);
        Ok(header)
    }

    /// Checks the values that a core dump of an x86-64 process must have.
    pub fn verify(&self) -> (r: Result<(), ParseError>)
        ensures
            r == self.check(),
    {
        if !(self.e_ident[0] == 0x7f && self.e_ident[1] == 0x45 && self.e_ident[2] == 0x4c
            && self.e_ident[3] == 0x46) {
            let magic = [self.e_ident[0], self.e_ident[1], self.e_ident[2], self.e_ident[3]];
            assert(magic@ =~= self.magic()@);
            return Err(ParseError::new(ErrorKind::InvalidMagic { magic }));
        }
        expect(HeaderField::IdentClass, self.e_ident[4] as u32, ELFCLASS64 as u32)?;
        expect(HeaderField::IdentData, self.e_ident[5] as u32, ELFDATA2LSB as u32)?;
        expect(HeaderField::IdentVersion, self.e_ident[6] as u32, EV_CURRENT as u32)?;
        expect(HeaderField::IdentOsabi, self.e_ident[7] as u32, ELFOSABI_SYSV as u32)?;
        expect(HeaderField::Type, self.e_type as u32, ET_CORE as u32)?;
        expect(HeaderField::Machine, self.e_machine as u32, EM_X86_64 as u32)?;
        expect(HeaderField::Version, self.e_version, EV_CURRENT as u32)?;
        expect(HeaderField::Ehsize, self.e_ehsize as u32, 64)?;
        expect(HeaderField::Phentsize, self.e_phentsize as u32, 56)?;
        expect(HeaderField::Shentsize, self.e_shentsize as u32, 64)?;
        Ok(())
    }

    /// Reads a file header from the start of `data` and checks it.
    pub fn parse(data: &[u8]) -> (r: Result<Elf64Ehdr, ParseError>)
        ensures
            r == Elf64Ehdr::spec_parse(data@),
    {
        let header = Elf64Ehdr::decode(data)?;
        header.verify()?;
        Ok(header)
    }
}

/// Whether `value` is a multiple of `align`; every value is aligned to 0.
pub open spec fn aligned(value: u64, align: u64) -> bool {
    align == 0 || value % align == 0
}

/// A program header.
#[allow(missing_docs)]
#[derive(Clone, Copy, Debug)]
pub struct Elf64Phdr {
    pub p_type: u32,
    pub p_flags: u32,
    /// Segment file offset.
    pub p_offset: u64,
    /// Segment virtual address.
    pub p_vaddr: u64,
    /// Segment physical address.
    pub p_paddr: u64,
    /// Segment size in file.
    pub p_filesz: u64,
    /// Segment size in memory.
    pub p_memsz: u64,
    /// Segment alignment, file & memory.
    pub p_align: u64,
}

impl Elf64Phdr {
    /// The program header that the first 56 bytes of `data` hold.
    pub open spec fn at(data: Seq<u8>) -> Elf64Phdr {
        Elf64Phdr {
            p_type: le_u32(data, 0),
            p_flags: le_u32(data, 4),
            p_offset: le_u64(data, 8),
            p_vaddr: le_u64(data, 16),
            p_paddr: le_u64(data, 24),
            p_filesz: le_u64(data, 32),
            p_memsz: le_u64(data, 40),
            p_align: le_u64(data, 48),
        }
    }

    /// The first address of the header that is not aligned: the virtual
    /// address is looked at before the physical one.
    pub open spec fn check(self) -> Result<(), ParseError> {
        if !aligned(self.p_vaddr, self.p_align) {
            Err(ParseError { kind: ErrorKind::UnalignedVaddr(self.p_vaddr) })
        } else if !aligned(self.p_paddr, self.p_align) {
            Err(ParseError { kind: ErrorKind::UnalignedPaddr(self.p_paddr) })
        } else {
            Ok(())
        }
    }

    /// What parsing a program header from the start of `data` gives.
    pub open spec fn spec_parse(data: Seq<u8>) -> Result<Elf64Phdr, ParseError> {
        if data.len() < PHDR_SIZE {
            Err(ParseError::truncated(Record::Elf64Phdr))
        } else {
            match Elf64Phdr::at(data).check() {
                Err(e) => Err(e),
                Ok(_) => Ok(Elf64Phdr::at(data)),
            }
        }
    }

    /// The bytes of entry `i` of a table of program headers.
    pub open spec fn entry(table: Seq<u8>, i: int) -> Seq<u8> {
        table.subrange(PHDR_SIZE * i, PHDR_SIZE * i + PHDR_SIZE)
    }

    /// What parsing `table` as program headers laid end to end gives: the
    /// length must be a multiple of the header size, and the first header
    /// that fails its check decides the error.
    pub open spec fn spec_parse_many(table: Seq<u8>) -> Result<Seq<Elf64Phdr>, ParseError> {
        if table.len() % (PHDR_SIZE as nat) != 0 {
            Err(ParseError::truncated(Record::Elf64Phdr))
        } else {
            collect(
                Seq::new(
                    table.len() / (PHDR_SIZE as nat),
                    |i: int| Elf64Phdr::spec_parse(Elf64Phdr::entry(table, i)),
                ),
            )
        }
    }

    /// What parsing the first `count` program headers of `data` gives.
    pub open spec fn spec_parse_n(data: Seq<u8>, count: int) -> Result<Seq<Elf64Phdr>, ParseError> {
        if PHDR_SIZE * count > data.len() {
            Err(ParseError::truncated(Record::Elf64Phdr))
        } else {
            Elf64Phdr::spec_parse_many(data.take(PHDR_SIZE * count))
        }
    }

    /// Reads the fields of a program header from the start of `data`.
    pub fn decode(data: &[u8]) -> (r: Result<Elf64Phdr, ParseError>)
        ensures
            data@.len() >= PHDR_SIZE ==> r == Ok::<Elf64Phdr, ParseError>(Elf64Phdr::at(data@)),
            data@.len() < PHDR_SIZE ==> r == Err::<Elf64Phdr, ParseError>(
                ParseError::truncated(Record::Elf64Phdr),
            ),
    {
        if data.len() < PHDR_SIZE {
            return Err(ParseError::not_enough_data(Record::Elf64Phdr));
        }
        Ok(
            Elf64Phdr {
                p_type: field_u32(data, 0, Record::Elf64Phdr)?,
                p_flags: field_u32(data, 4, Record::Elf64Phdr)?,
                p_offset: field_u64(data, 8, Record::Elf64Phdr)?,
                p_vaddr: field_u64(data, 16, Record::Elf64Phdr)?,
                p_paddr: field_u64(data, 24, Record::Elf64Phdr)?,
                p_filesz: field_u64(data, 32, Record::Elf64Phdr)?,
                p_memsz: field_u64(data, 40, Record::Elf64Phdr)?,
                p_align: field_u64(data, 48, Record::Elf64Phdr)?,
            },
        )
    }

    /// Checks that both addresses are multiples of the alignment. An
    /// alignment of 0 asks for nothing.
    pub fn verify(&self) -> (r: Result<(), ParseError>)
        ensures
            r == self.check(),
    {
        if self.p_align != 0 && self.p_vaddr % self.p_align != 0 {
            Err(ParseError::new(ErrorKind::UnalignedVaddr(self.p_vaddr)))
        } else if self.p_align != 0 && self.p_paddr % self.p_align != 0 {
            Err(ParseError::new(ErrorKind::UnalignedPaddr(self.p_paddr)))
        } else {
            Ok(())
        }
    }

    /// Reads a program header from the start of `data` and checks it.
    pub fn parse(data: &[u8]) -> (r: Result<Elf64Phdr, ParseError>)
        ensures
            r == Elf64Phdr::spec_parse(data@),
    {
        let header = Elf64Phdr::decode(data)?;
        header.verify()?;
        Ok(header)
    }

    /// Reads `data` as program headers laid end to end.
    pub fn parse_many(data: &[u8]) -> (r: Result<Vec<Elf64Phdr>, ParseError>)
        ensures
            match Elf64Phdr::spec_parse_many(data@) {
                Ok(headers) => r is Ok && r->Ok_0@ == headers,
                Err(e) => r == Err::<Vec<Elf64Phdr>, ParseError>(e),
            },
    {
        if data.len() % PHDR_SIZE != 0 {
            return Err(ParseError::not_enough_data(Record::Elf64Phdr));
        }
        let count = data.len() / PHDR_SIZE;
        let ghost entries = Seq::new(
            count as nat,
            |i: int| Elf64Phdr::spec_parse(Elf64Phdr::entry(data@, i)),
        );
        let mut headers: Vec<Elf64Phdr> = Vec::new();
        let mut i: usize = 0;
        let mut at: usize = 0;
        while i < count
            invariant
                i <= count,
                at == PHDR_SIZE * i,
                PHDR_SIZE * count == data@.len() <= usize::MAX,
                entries == Seq::new(
                    count as nat,
                    |i: int| Elf64Phdr::spec_parse(Elf64Phdr::entry(data@, i)),
                ),
                collect(entries.take(i as int)) == Ok::<Seq<Elf64Phdr>, ParseError>(headers@),
            decreases count - i,
        {
            proof {
                assert(entries.take(i + 1).drop_last() =~= entries.take(i as int));
                if entries[i as int] is Err {
                    lemma_collect_prefix_err(entries, i + 1);
                }
            }
            let header = Elf64Phdr::parse(&data[at..at + PHDR_SIZE])?;
            headers.push(header);
            i += 1;
            at += PHDR_SIZE;
        }
        proof {
            assert(entries.take(count as int) =~= entries);
        }
        Ok(headers)
    }

    /// Reads the first `count` program headers of `data`.
    pub fn parse_n(data: &[u8], count: usize) -> (r: Result<Vec<Elf64Phdr>, ParseError>)
        ensures
            match Elf64Phdr::spec_parse_n(data@, count as int) {
                Ok(headers) => r is Ok && r->Ok_0@ == headers,
                Err(e) => r == Err::<Vec<Elf64Phdr>, ParseError>(e),
            },
    {
        if count > data.len() / PHDR_SIZE {
            return Err(ParseError::not_enough_data(Record::Elf64Phdr));
        }
        Elf64Phdr::parse_many(&data[0..count * PHDR_SIZE])
    }
}

/// A note header.
#[allow(missing_docs)]
#[derive(Clone, Copy, Debug)]
pub struct Elf64Nhdr {
    pub n_namesz: u32,
    pub n_descsz: u32,
    pub n_type: u32,
}

impl Elf64Nhdr {
    /// The note header that the first 12 bytes of `data` hold.
    pub open spec fn at(data: Seq<u8>) -> Elf64Nhdr {
        Elf64Nhdr { n_namesz: le_u32(data, 0), n_descsz: le_u32(data, 4), n_type: le_u32(data, 8) }
    }

    /// What parsing a note header from the start of `data` gives.
    pub open spec fn spec_parse(data: Seq<u8>) -> Result<Elf64Nhdr, ParseError> {
        if data.len() < NHDR_SIZE {
            Err(ParseError::truncated(Record::Elf64Nhdr))
        } else {
            Ok(Elf64Nhdr::at(data))
        }
    }

    /// Reads a note header from the start of `data`.
    pub fn parse(data: &[u8]) -> (r: Result<Elf64Nhdr, ParseError>)
        ensures
            r == Elf64Nhdr::spec_parse(data@),
    {
        if data.len() < NHDR_SIZE {
            return Err(ParseError::not_enough_data(Record::Elf64Nhdr));
        }
        Ok(
            Elf64Nhdr {
                n_namesz: field_u32(data, 0, Record::Elf64Nhdr)?,
                n_descsz: field_u32(data, 4, Record::Elf64Nhdr)?,
                n_type: field_u32(data, 8, Record::Elf64Nhdr)?,
            },
        )
    }
}

/// The process description of an `NT_PRPSINFO` note. The two names borrow
/// their fixed-size fields from the note.
#[allow(missing_docs)]
#[derive(Clone, Copy, Debug)]
pub struct ElfPrpsinfo<'d> {
    pub pr_state: i8,
    pub pr_sname: u8,
    pub pr_zomb: i8,
    pub pr_nice: i8,
    pub pr_flag: u64,
    pub pr_uid: i32,
    pub pr_gid: i32,
    pub pr_pid: i32,
    pub pr_ppid: i32,
    pub pr_pgrp: i32,
    pub pr_sid: i32,
    pub pr_fname: &'d [u8],
    pub pr_psargs: &'d [u8],
}

/// What an [`ElfPrpsinfo`] holds, with the borrowed fields as sequences.
#[allow(missing_docs)]
pub struct ElfPrpsinfoView {
    pub pr_state: i8,
    pub pr_sname: u8,
    pub pr_zomb: i8,
    pub pr_nice: i8,
    pub pr_flag: u64,
    pub pr_uid: i32,
    pub pr_gid: i32,
    pub pr_pid: i32,
    pub pr_ppid: i32,
    pub pr_pgrp: i32,
    pub pr_sid: i32,
    pub pr_fname: Seq<u8>,
    pub pr_psargs: Seq<u8>,
}

impl<'d> View for ElfPrpsinfo<'d> {
    type V = ElfPrpsinfoView;

    open spec fn view(&self) -> ElfPrpsinfoView {
        ElfPrpsinfoView {
            pr_state: self.pr_state,
            pr_sname: self.pr_sname,
            pr_zomb: self.pr_zomb,
            pr_nice: self.pr_nice,
            pr_flag: self.pr_flag,
            pr_uid: self.pr_uid,
            pr_gid: self.pr_gid,
            pr_pid: self.pr_pid,
            pr_ppid: self.pr_ppid,
            pr_pgrp: self.pr_pgrp,
            pr_sid: self.pr_sid,
            pr_fname: self.pr_fname@,
            pr_psargs: self.pr_psargs@,
        }
    }
}

impl<'d> ElfPrpsinfo<'d> {
    /// The process description that the first 136 bytes of `data` hold.
    /// Bytes 4 to 7 are padding.
    pub open spec fn at(data: Seq<u8>) -> ElfPrpsinfoView {
        ElfPrpsinfoView {
            pr_state: signed8(data[0]),
            pr_sname: data[1],
            pr_zomb: signed8(data[2]),
            pr_nice: signed8(data[3]),
            pr_flag: le_u64(data, 8),
            pr_uid: signed32(le_u32(data, 16)),
            pr_gid: signed32(le_u32(data, 20)),
            pr_pid: signed32(le_u32(data, 24)),
            pr_ppid: signed32(le_u32(data, 28)),
            pr_pgrp: signed32(le_u32(data, 32)),
            pr_sid: signed32(le_u32(data, 36)),
            pr_fname: data.subrange(40, 56),
            pr_psargs: data.subrange(56, 136),
        }
    }

    /// What parsing a process description from the start of `data` gives.
    pub open spec fn spec_parse(data: Seq<u8>) -> Result<ElfPrpsinfoView, ParseError> {
        if data.len() < PRPSINFO_SIZE {
            Err(ParseError::truncated(Record::ElfPrpsinfo))
        } else {
            Ok(ElfPrpsinfo::at(data))
        }
    }

    /// Reads a process description from the start of `data`.
    pub fn parse(data: &'d [u8]) -> (r: Result<ElfPrpsinfo<'d>, ParseError>)
        ensures
            match ElfPrpsinfo::spec_parse(data@) {
                Ok(info) => r is Ok && r->Ok_0@ == info,
                Err(e) => r == Err::<ElfPrpsinfo<'d>, ParseError>(e),
            },
    {
        if data.len() < PRPSINFO_SIZE {
            return Err(ParseError::not_enough_data(Record::ElfPrpsinfo));
        }
        Ok(
            ElfPrpsinfo {
                pr_state: to_i8(data[0]),
                pr_sname: data[1],
                pr_zomb: to_i8(data[2]),
                pr_nice: to_i8(data[3]),
                pr_flag: field_u64(data, 8, Record::ElfPrpsinfo)?,
                pr_uid: field_i32(data, 16, Record::ElfPrpsinfo)?,
                pr_gid: field_i32(data, 20, Record::ElfPrpsinfo)?,
                pr_pid: field_i32(data, 24, Record::ElfPrpsinfo)?,
                pr_ppid: field_i32(data, 28, Record::ElfPrpsinfo)?,
                pr_pgrp: field_i32(data, 32, Record::ElfPrpsinfo)?,
                pr_sid: field_i32(data, 36, Record::ElfPrpsinfo)?,
                pr_fname: &data[40..56],
                pr_psargs: &data[56..136],
            },
        )
    }
}

/// The general-purpose registers of a thread, in the order in which the
/// kernel writes them.
#[allow(missing_docs)]
#[derive(Clone, Copy, Debug)]
pub struct ElfGregset {
    pub r15: u64,
    pub r14: u64,
    pub r13: u64,
    pub r12: u64,
    pub bp: u64,
    pub bx: u64,
    pub r11: u64,
    pub r10: u64,
    pub r9: u64,
    pub r8: u64,
    pub ax: u64,
    pub cx: u64,
    pub dx: u64,
    pub si: u64,
    pub di: u64,
    pub orig_ax: u64,
    pub ip: u64,
    pub cs: u64,
    pub flags: u64,
    pub sp: u64,
    pub ss: u64,
    pub fs_base: u64,
    pub gs_base: u64,
    pub ds: u64,
    pub es: u64,
    pub fs: u64,
    pub gs: u64,
}

impl ElfGregset {
    /// The register set that the 216 bytes of `data` from `base` on hold.
    pub open spec fn at(data: Seq<u8>, base: int) -> ElfGregset {
        ElfGregset {
            r15: le_u64(data, base + 0),
            r14: le_u64(data, base + 8),
            r13: le_u64(data, base + 16),
            r12: le_u64(data, base + 24),
            bp: le_u64(data, base + 32),
            bx: le_u64(data, base + 40),
            r11: le_u64(data, base + 48),
            r10: le_u64(data, base + 56),
            r9: le_u64(data, base + 64),
            r8: le_u64(data, base + 72),
            ax: le_u64(data, base + 80),
            cx: le_u64(data, base + 88),
            dx: le_u64(data, base + 96),
            si: le_u64(data, base + 104),
            di: le_u64(data, base + 112),
            orig_ax: le_u64(data, base + 120),
            ip: le_u64(data, base + 128),
            cs: le_u64(data, base + 136),
            flags: le_u64(data, base + 144),
            sp: le_u64(data, base + 152),
            ss: le_u64(data, base + 160),
            fs_base: le_u64(data, base + 168),
            gs_base: le_u64(data, base + 176),
            ds: le_u64(data, base + 184),
            es: le_u64(data, base + 192),
            fs: le_u64(data, base + 200),
            gs: le_u64(data, base + 208),
        }
    }
}

/// The thread status of an `NT_PRSTATUS` note, reduced to the thread's id
/// and registers.
#[allow(missing_docs)]
#[derive(Clone, Copy, Debug)]
pub struct ElfPrstatus {
    pub pr_pid: i32,
    pub pr_reg: ElfGregset,
}

impl ElfPrstatus {
    /// The thread status that the first 332 bytes of `data` hold: the
    /// thread's id is at offset 32, its registers start at offset 112.
    pub open spec fn at(data: Seq<u8>) -> ElfPrstatus {
        ElfPrstatus { pr_pid: signed32(le_u32(data, 32)), pr_reg: ElfGregset::at(data, 112) }
    }

    /// What parsing a thread status from the start of `data` gives.
    pub open spec fn spec_parse(data: Seq<u8>) -> Result<ElfPrstatus, ParseError> {
        if data.len() < PRSTATUS_SIZE {
            Err(ParseError::truncated(Record::ElfPrstatus))
        } else {
            Ok(ElfPrstatus::at(data))
        }
    }

    /// Reads a thread status from the start of `data`.
    pub fn parse(data: &[u8]) -> (r: Result<ElfPrstatus, ParseError>)
        ensures
            r == ElfPrstatus::spec_parse(data@),
    {
        if data.len() < PRSTATUS_SIZE {
            return Err(ParseError::not_enough_data(Record::ElfPrstatus));
        }
        let pr_reg = ElfGregset {
            r15: field_u64(data, 112, Record::ElfPrstatus)?,
            r14: field_u64(data, 120, Record::ElfPrstatus)?,
            r13: field_u64(data, 128, Record::ElfPrstatus)?,
            r12: field_u64(data, 136, Record::ElfPrstatus)?,
            bp: field_u64(data, 144, Record::ElfPrstatus)?,
            bx: field_u64(data, 152, Record::ElfPrstatus)?,
            r11: field_u64(data, 160, Record::ElfPrstatus)?,
            r10: field_u64(data, 168, Record::ElfPrstatus)?,
            r9: field_u64(data, 176, Record::ElfPrstatus)?,
            r8: field_u64(data, 184, Record::ElfPrstatus)?,
            ax: field_u64(data, 192, Record::ElfPrstatus)?,
            cx: field_u64(data, 200, Record::ElfPrstatus)?,
            dx: field_u64(data, 208, Record::ElfPrstatus)?,
            si: field_u64(data, 216, Record::ElfPrstatus)?,
            di: field_u64(data, 224, Record::ElfPrstatus)?,
            orig_ax: field_u64(data, 232, Record::ElfPrstatus)?,
            ip: field_u64(data, 240, Record::ElfPrstatus)?,
            cs: field_u64(data, 248, Record::ElfPrstatus)?,
            flags: field_u64(data, 256, Record::ElfPrstatus)?,
            sp: field_u64(data, 264, Record::ElfPrstatus)?,
            ss: field_u64(data, 272, Record::ElfPrstatus)?,
            fs_base: field_u64(data, 280, Record::ElfPrstatus)?,
            gs_base: field_u64(data, 288, Record::ElfPrstatus)?,
            ds: field_u64(data, 296, Record::ElfPrstatus)?,
            es: field_u64(data, 304, Record::ElfPrstatus)?,
            fs: field_u64(data, 312, Record::ElfPrstatus)?,
            gs: field_u64(data, 320, Record::ElfPrstatus)?,
        };
        Ok(ElfPrstatus { pr_pid: field_i32(data, 32, Record::ElfPrstatus)?, pr_reg })
    }
}

} // verus!
