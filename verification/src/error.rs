//! What can be wrong with a core dump.

use crate::elf::ProgramHeader;
use crate::read::NotEnoughData;
use vstd::prelude::*;
use vstd::string::*;

verus! {

/// The fixed-layout records of the format, as the kernel names them.
#[derive(Clone, Copy, Debug, PartialEq, Eq)]
pub enum Record {
    /// The ELF file header, `Elf64_Ehdr`.
    Elf64Ehdr,
    /// A program header, `Elf64_Phdr`.
    Elf64Phdr,
    /// A note header, `Elf64_Nhdr`.
    Elf64Nhdr,
    /// The process description, `elf_prpsinfo`.
    ElfPrpsinfo,
    /// A thread status, `elf_prstatus`.
    ElfPrstatus,
}

/// The fields of the file header that must hold one fixed value.
#[derive(Clone, Copy, Debug, PartialEq, Eq)]
pub enum HeaderField {
    /// `e_ident[EI_CLASS]`
    IdentClass,
    /// `e_ident[EI_DATA]`
    IdentData,
    /// `e_ident[EI_VERSION]`
    IdentVersion,
    /// `e_ident[EI_OSABI]`
    IdentOsabi,
    /// `e_type`
    Type,
    /// `e_machine`
    Machine,
    /// `e_version`
    Version,
    /// `e_ehsize`
    Ehsize,
    /// `e_phentsize`
    Phentsize,
    /// `e_shentsize`
    Shentsize,
}

/// The notes a core dump must hold.
#[derive(Clone, Copy, Debug, PartialEq, Eq)]
pub enum RequiredNote {
    /// `CORE/NT_PRPSINFO`
    Prpsinfo,
    /// `CORE/NT_FILE`
    File,
}

/// The reason a buffer is not a core dump this decoder accepts.
#[derive(Clone, Copy, Debug, PartialEq, Eq)]
pub enum ErrorKind {
    /// The buffer ends before the record does.
    NotEnoughData(Record),
    /// The file does not start with `0x7f 'E' 'L' 'F'`.
    InvalidMagic { magic: [u8; 4] },
    /// A file header field holds another value than the one required.
    InvalidValue { field: HeaderField, got: u32, expected: u32 },
    /// `p_vaddr` of a program header is not a multiple of its `p_align`.
    UnalignedVaddr(u64),
    /// `p_paddr` of a program header is not a multiple of its `p_align`.
    UnalignedPaddr(u64),
    /// The program header table starts behind the end of the file.
    TableOutOfBounds { offset: u64 },
    /// The file range of a segment does not lie within the file.
    InvalidFileRange(ProgramHeader),
    /// A loadable segment whose size in the file is not its size in memory.
    SizeMismatch { file_size: u64, memory_size: u64 },
    /// A loadable segment that would end above the 64-bit address space.
    SegmentEndOverflow { vm_start: u64, memory_size: u64 },
    /// A required note is absent.
    MissingNote(RequiredNote),
    /// A note segment ends inside a note's name, description or padding.
    NoteTruncated,
    /// The file-map note ends inside its header or its entry table.
    FileMapTruncated,
    /// A file-map entry whose byte offset does not fit in 64 bits.
    FileOffsetOverflow { page_index: u64, page_size: u64 },
    /// The file-map note names fewer paths than it has entries.
    TooFewPaths,
}

/// The error of every decoding function of this crate.
#[derive(Clone, Copy, Debug, PartialEq, Eq)]
pub struct ParseError {
    pub kind: ErrorKind,
}

impl ParseError {
    /// The error for a buffer that ends inside `record`.
    pub open spec fn truncated(record: Record) -> ParseError {
        ParseError { kind: ErrorKind::NotEnoughData(record) }
    }

    /// The error with the given reason.
    pub fn new(kind: ErrorKind) -> (r: ParseError)
        ensures
            r == (ParseError { kind }),
    {
        ParseError { kind }
    }

    /// The error for a buffer that ends inside `record`.
    pub fn not_enough_data(record: Record) -> (r: ParseError)
        ensures
            r == ParseError::truncated(record),
    {
        ParseError { kind: ErrorKind::NotEnoughData(record) }
    }
}

/// Gives a failed read the reason `kind`.
pub fn or_error<T>(r: Result<T, NotEnoughData>, kind: ErrorKind) -> (out: Result<T, ParseError>)
    ensures
        match r {
            Ok(v) => out == Ok::<T, ParseError>(v),
            Err(_) => out == Err::<T, ParseError>(ParseError { kind }),
        },
{
    match r {
        Ok(v) => Ok(v),
        Err(_) => Err(ParseError { kind }),
    }
}

/// The values of `s` if all of its entries are `Ok`, else its first error.
pub open spec fn collect<T>(s: Seq<Result<T, ParseError>>) -> Result<Seq<T>, ParseError>
    decreases s.len(),
{
    if s.len() == 0 {
        Ok(Seq::empty())
    } else {
        match collect(s.drop_last()) {
            Err(e) => Err(e),
            Ok(values) => match s.last() {
                Err(e) => Err(e),
                Ok(v) => Ok(values.push(v)),
            },
        }
    }
}

/// `collect(s)` succeeds exactly when every entry of `s` is `Ok`, and then
/// holds the entries' values in order.
pub proof fn lemma_collect_ok<T>(s: Seq<Result<T, ParseError>>)
    ensures
        collect(s) is Ok <==> (forall|i: int| 0 <= i < s.len() ==> s[i] is Ok),
        collect(s) matches Ok(values) ==> {
            &&& values.len() == s.len()
            &&& forall|i: int| 0 <= i < s.len() ==> s[i] == Ok::<T, ParseError>(values[i])
        },
    decreases s.len(),
{
    if s.len() > 0 {
        let head = s.drop_last();
        lemma_collect_ok(head);
        if collect(s) is Ok {
            assert forall|i: int| 0 <= i < s.len() implies s[i] is Ok by {
                if i < head.len() {
                    assert(head[i] is Ok);
                }
            }
        }
        if forall|i: int| 0 <= i < s.len() ==> s[i] is Ok {
            assert forall|i: int| 0 <= i < head.len() implies head[i] is Ok by {
                assert(s[i] is Ok);
            }
        }
        if let Ok(values) = collect(s) {
            let before = collect(head)->Ok_0;
            assert forall|i: int| 0 <= i < s.len() implies s[i] == Ok::<T, ParseError>(
                values[i],
            ) by {
                if i < head.len() {
                    assert(head[i] == Ok::<T, ParseError>(before[i]));
                }
            }
        }
    }
}

/// An error among the first `n` entries of `s` is the error of all of `s`.
pub proof fn lemma_collect_prefix_err<T>(s: Seq<Result<T, ParseError>>, n: int)
    requires
        0 <= n <= s.len(),
        collect(s.take(n)) is Err,
    ensures
        collect(s) == collect(s.take(n)),
    decreases s.len() - n,
{
    if n < s.len() {
        assert(s.take(n + 1).drop_last() =~= s.take(n));
        lemma_collect_prefix_err(s, n + 1);
    } else {
        assert(s.take(n) =~= s);
    }
}

/// The digit `d` of a number written in base 10 or 16; what is no digit
/// is written as the largest one.
pub open spec fn digit_text(d: int) -> Seq<char> {
    if d == 0 {
        "0"@
    } else if d == 1 {
        "1"@
    } else if d == 2 {
        "2"@
    } else if d == 3 {
        "3"@
    } else if d == 4 {
        "4"@
    } else if d == 5 {
        "5"@
    } else if d == 6 {
        "6"@
    } else if d == 7 {
        "7"@
    } else if d == 8 {
        "8"@
    } else if d == 9 {
        "9"@
    } else if d == 10 {
        "a"@
    } else if d == 11 {
        "b"@
    } else if d == 12 {
        "c"@
    } else if d == 13 {
        "d"@
    } else if d == 14 {
        "e"@
    } else {
        "f"@
    }
}

/// `n` written in base 10.
pub open spec fn decimal_text(n: nat) -> Seq<char>
    decreases n,
{
    if n < 10 {
        digit_text(n as int)
    } else {
        decimal_text(n / 10) + digit_text((n % 10) as int)
    }
}

/// `n` written in base 16, in lower case and without a prefix.
pub open spec fn hex_digits(n: nat) -> Seq<char>
    decreases n,
{
    if n < 16 {
        digit_text(n as int)
    } else {
        hex_digits(n / 16) + digit_text((n % 16) as int)
    }
}

/// `n` written in base 16 behind `0x`.
pub open spec fn hex_text(n: nat) -> Seq<char> {
    "0x"@ + hex_digits(n)
}

/// The digit `d` of a number written in base 10 or 16; what is no digit
/// is written as the largest one.
pub fn digit(d: u64) -> (r: &'static str)
    ensures
        r@ == digit_text(d as int),
{
    if d == 0 {
        "0"
    } else if d == 1 {
        "1"
    } else if d == 2 {
        "2"
    } else if d == 3 {
        "3"
    } else if d == 4 {
        "4"
    } else if d == 5 {
        "5"
    } else if d == 6 {
        "6"
    } else if d == 7 {
        "7"
    } else if d == 8 {
        "8"
    } else if d == 9 {
        "9"
    } else if d == 10 {
        "a"
    } else if d == 11 {
        "b"
    } else if d == 12 {
        "c"
    } else if d == 13 {
        "d"
    } else if d == 14 {
        "e"
    } else {
        "f"
    }
}

/// Appends `n` in base 10 to `text`.
pub fn append_decimal(text: &mut String, n: u64)
    ensures
        final(text)@ == old(text)@ + decimal_text(n as nat),
    decreases n,
{
    if n >= 10 {
        append_decimal(text, n / 10);
    }
    text.append(digit(n % 10));
    assert(final(text)@ =~= old(text)@ + decimal_text(n as nat));
}

/// Appends the digits of `n` in base 16 to `text`.
pub fn append_hex_digits(text: &mut String, n: u64)
    ensures
        final(text)@ == old(text)@ + hex_digits(n as nat),
    decreases n,
{
    if n >= 16 {
        append_hex_digits(text, n / 16);
    }
    text.append(digit(n % 16));
    assert(final(text)@ =~= old(text)@ + hex_digits(n as nat));
}

/// Appends `n` in base 16 behind `0x` to `text`.
pub fn append_hex(text: &mut String, n: u64)
    ensures
        final(text)@ == old(text)@ + hex_text(n as nat),
{
    text.append("0x");
    append_hex_digits(text, n);
    assert(final(text)@ =~= old(text)@ + hex_text(n as nat));
}

impl Record {
    /// The kernel's name of the record.
    pub open spec fn spec_name(self) -> Seq<char> {
        match self {
            Record::Elf64Ehdr => "Elf64_Ehdr"@,
            Record::Elf64Phdr => "Elf64_Phdr"@,
            Record::Elf64Nhdr => "Elf64_Nhdr"@,
            Record::ElfPrpsinfo => "elf_prpsinfo"@,
            Record::ElfPrstatus => "elf_prstatus"@,
        }
    }

    /// The kernel's name of the record.
    pub fn name(&self) -> (r: &'static str)
        ensures
            r@ == self.spec_name(),
    {
        match self {
            Record::Elf64Ehdr => "Elf64_Ehdr",
            Record::Elf64Phdr => "Elf64_Phdr",
            Record::Elf64Nhdr => "Elf64_Nhdr",
            Record::ElfPrpsinfo => "elf_prpsinfo",
            Record::ElfPrstatus => "elf_prstatus",
        }
    }
}

impl HeaderField {
    /// The name of the field.
    pub open spec fn spec_name(self) -> Seq<char> {
        match self {
            HeaderField::IdentClass => "e_ident.class"@,
            HeaderField::IdentData => "e_ident.data"@,
            HeaderField::IdentVersion => "e_ident.version"@,
            HeaderField::IdentOsabi => "e_ident.osabi"@,
            HeaderField::Type => "e_type"@,
            HeaderField::Machine => "e_machine"@,
            HeaderField::Version => "e_version"@,
            HeaderField::Ehsize => "e_ehsize"@,
            HeaderField::Phentsize => "e_phentsize"@,
            HeaderField::Shentsize => "e_shentsize"@,
        }
    }

    /// The name of the field.
    pub fn name(&self) -> (r: &'static str)
        ensures
            r@ == self.spec_name(),
    {
        match self {
            HeaderField::IdentClass => "e_ident.class",
            HeaderField::IdentData => "e_ident.data",
            HeaderField::IdentVersion => "e_ident.version",
            HeaderField::IdentOsabi => "e_ident.osabi",
            HeaderField::Type => "e_type",
            HeaderField::Machine => "e_machine",
            HeaderField::Version => "e_version",
            HeaderField::Ehsize => "e_ehsize",
            HeaderField::Phentsize => "e_phentsize",
            HeaderField::Shentsize => "e_shentsize",
        }
    }
}

/// A program header written out field by field, in base 10.
pub open spec fn header_text(ph: ProgramHeader) -> Seq<char> {
    "ProgramHeader { type_: "@ + decimal_text(ph.type_ as nat) + ", file_offset: "@
        + decimal_text(ph.file_offset as nat) + ", file_size: "@ + decimal_text(
        ph.file_size as nat,
    ) + ", memory_address: "@ + decimal_text(ph.memory_address as nat) + ", memory_size: "@
        + decimal_text(ph.memory_size as nat) + " }"@
}

/// Appends a program header, written out field by field, to `text`.
pub fn append_header(text: &mut String, ph: &ProgramHeader)
    ensures
        final(text)@ == old(text)@ + header_text(*ph),
{
    text.append("ProgramHeader { type_: ");
    append_decimal(text, ph.type_ as u64);
    text.append(", file_offset: ");
    append_decimal(text, ph.file_offset);
    text.append(", file_size: ");
    append_decimal(text, ph.file_size);
    text.append(", memory_address: ");
    append_decimal(text, ph.memory_address);
    text.append(", memory_size: ");
    append_decimal(text, ph.memory_size);
    text.append(" }");
    assert(final(text)@ =~= old(text)@ + header_text(*ph));
}

/// The four bytes of a magic number as a list in base 10.
pub open spec fn magic_text(magic: [u8; 4]) -> Seq<char> {
    "["@ + decimal_text(magic[0] as nat) + ", "@ + decimal_text(magic[1] as nat) + ", "@
        + decimal_text(magic[2] as nat) + ", "@ + decimal_text(magic[3] as nat) + "]"@
}

/// Appends the four bytes of a magic number, as a list, to `text`.
pub fn append_magic(text: &mut String, magic: &[u8; 4])
    ensures
        final(text)@ == old(text)@ + magic_text(*magic),
{
    text.append("[");
    append_decimal(text, magic[0] as u64);
    text.append(", ");
    append_decimal(text, magic[1] as u64);
    text.append(", ");
    append_decimal(text, magic[2] as u64);
    text.append(", ");
    append_decimal(text, magic[3] as u64);
    text.append("]");
    assert(final(text)@ =~= old(text)@ + magic_text(*magic));
}

impl ErrorKind {
    /// The reason in words.
    pub open spec fn spec_message(self) -> Seq<char> {
        match self {
            ErrorKind::NotEnoughData(record) => record.spec_name() + ": not enough data"@,
            ErrorKind::InvalidMagic { magic } => "Elf64_Ehdr: invalid e_ident.magic value: got "@
                + magic_text(magic) + ", expected: [127, 69, 76, 70]"@,
            ErrorKind::InvalidValue { field, got, expected } => "Elf64_Ehdr: invalid "@
                + field.spec_name() + " value: got "@ + decimal_text(got as nat)
                + ", expected: "@ + decimal_text(expected as nat),
            ErrorKind::UnalignedVaddr(value) => "Elf64_Phdr: unaligned p_vaddr value: "@
                + hex_text(value as nat),
            ErrorKind::UnalignedPaddr(value) => "Elf64_Phdr: unaligned p_paddr value: "@
                + hex_text(value as nat),
            ErrorKind::TableOutOfBounds { offset } =>
                "program header table offset is out of bounds: "@ + hex_text(offset as nat),
            ErrorKind::InvalidFileRange(ph) => "program header has invalid file range: "@
                + header_text(ph),
            ErrorKind::SizeMismatch { file_size, memory_size } => "segment file size ("@
                + hex_text(file_size as nat) + ") differs from memory size ("@ + hex_text(
                memory_size as nat,
            ) + ")"@,
            ErrorKind::SegmentEndOverflow { vm_start, memory_size } => "segment at "@
                + hex_text(vm_start as nat) + " of size "@ + hex_text(memory_size as nat)
                + " ends above the address space"@,
            ErrorKind::MissingNote(RequiredNote::Prpsinfo) => "missing note: CORE/NT_PRPSINFO"@,
            ErrorKind::MissingNote(RequiredNote::File) => "missing note: CORE/NT_FILE"@,
            ErrorKind::NoteTruncated => "note: not enough data"@,
            ErrorKind::FileMapTruncated => "NT_FILE note: not enough data"@,
            ErrorKind::FileOffsetOverflow { page_index, page_size } => "NT_FILE note: page "@
                + hex_text(page_index as nat) + " of size "@ + hex_text(page_size as nat)
                + " lies above the 64-bit file offsets"@,
            ErrorKind::TooFewPaths => "NT_FILE note contains too few paths"@,
        }
    }

    /// The reason in words.
    pub fn message(&self) -> (r: String)
        ensures
            r@ == self.spec_message(),
    {
        let mut text = String::new();
        match self {
            ErrorKind::NotEnoughData(record) => {
                text.append(record.name());
                text.append(": not enough data");
            },
            ErrorKind::InvalidMagic { magic } => {
                text.append("Elf64_Ehdr: invalid e_ident.magic value: got ");
                append_magic(&mut text, magic);
                text.append(", expected: [127, 69, 76, 70]");
            },
            ErrorKind::InvalidValue { field, got, expected } => {
                text.append("Elf64_Ehdr: invalid ");
                text.append(field.name());
                text.append(" value: got ");
                append_decimal(&mut text, *got as u64);
                text.append(", expected: ");
                append_decimal(&mut text, *expected as u64);
            },
            ErrorKind::UnalignedVaddr(value) => {
                text.append("Elf64_Phdr: unaligned p_vaddr value: ");
                append_hex(&mut text, *value);
            },
            ErrorKind::UnalignedPaddr(value) => {
                text.append("Elf64_Phdr: unaligned p_paddr value: ");
                append_hex(&mut text, *value);
            },
            ErrorKind::TableOutOfBounds { offset } => {
                text.append("program header table offset is out of bounds: ");
                append_hex(&mut text, *offset);
            },
            ErrorKind::InvalidFileRange(ph) => {
                text.append("program header has invalid file range: ");
                append_header(&mut text, ph);
            },
            ErrorKind::SizeMismatch { file_size, memory_size } => {
                text.append("segment file size (");
                append_hex(&mut text, *file_size);
                text.append(") differs from memory size (");
                append_hex(&mut text, *memory_size);
                text.append(")");
            },
            ErrorKind::SegmentEndOverflow { vm_start, memory_size } => {
                text.append("segment at ");
                append_hex(&mut text, *vm_start);
                text.append(" of size ");
                append_hex(&mut text, *memory_size);
                text.append(" ends above the address space");
            },
            ErrorKind::MissingNote(RequiredNote::Prpsinfo) => {
                text.append("missing note: CORE/NT_PRPSINFO");
            },
            ErrorKind::MissingNote(RequiredNote::File) => {
                text.append("missing note: CORE/NT_FILE");
            },
            ErrorKind::NoteTruncated => {
                text.append("note: not enough data");
            },
            ErrorKind::FileMapTruncated => {
                text.append("NT_FILE note: not enough data");
            },
            ErrorKind::FileOffsetOverflow { page_index, page_size } => {
                text.append("NT_FILE note: page ");
                append_hex(&mut text, *page_index);
                text.append(" of size ");
                append_hex(&mut text, *page_size);
                text.append(" lies above the 64-bit file offsets");
            },
            ErrorKind::TooFewPaths => {
                text.append("NT_FILE note contains too few paths");
            },
        }
        assert(text@ =~= self.spec_message());
        text
    }
}

impl ParseError {
    /// The error in words.
    pub open spec fn spec_message(self) -> Seq<char> {
        self.kind.spec_message()
    }

    /// The error in words.
    pub fn message(&self) -> (r: String)
        ensures
            r@ == self.spec_message(),
    {
        self.kind.message()
    }

    /// The error in words, marked as a parse error.
    pub open spec fn spec_to_string(self) -> Seq<char> {
        "parse error: "@ + self.spec_message()
    }

    /// The error in words, marked as a parse error.
    pub fn to_string(&self) -> (r: String)
        ensures
            r@ == self.spec_to_string(),
    {
        let mut text = String::from_str("parse error: ");
        text.append(self.message().as_str());
        text
    }
}

} // verus!
