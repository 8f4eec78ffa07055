//! The ELF container: file header, program headers and notes.

use crate::ctypes::{Elf64Ehdr, Elf64Nhdr, Elf64Phdr, NHDR_SIZE, PT_NOTE};
use crate::error::{collect, lemma_collect_prefix_err, or_error, ErrorKind, ParseError, Record};
use crate::read::{le_u32, Reader};
use crate::util::{
    bytes_eq, c_string, lemma_c_string_lies_in, lemma_filter_push, lemma_lies_in_trans,
    lemma_range_lies_in, lies_in, trim_c_string,
};
use vstd::prelude::*;
use vstd::std_specs::convert::FromSpecImpl;

verus! {

/// What the decoder keeps of the file header: where the program header
/// table starts and how many entries it has.
#[derive(Clone, Copy, Debug, PartialEq, Eq)]
pub struct Header {
    pub ph_offset: u64,
    pub ph_count: usize,
}

impl Header {
    /// What is kept of `ehdr`.
    pub open spec fn of(ehdr: Elf64Ehdr) -> Header {
        Header { ph_offset: ehdr.e_phoff, ph_count: ehdr.e_phnum as usize }
    }
}

impl From<&Elf64Ehdr> for Header {
    fn from(ehdr: &Elf64Ehdr) -> (r: Header) {
        Header { ph_offset: ehdr.e_phoff, ph_count: ehdr.e_phnum as usize }
    }
}

impl FromSpecImpl<&Elf64Ehdr> for Header {
    open spec fn obeys_from_spec() -> bool {
        true
    }

    open spec fn from_spec(ehdr: &Elf64Ehdr) -> Header {
        Header::of(*ehdr)
    }
}

/// A program header, reduced to what the decoder uses.
#[derive(Clone, Copy, Debug, PartialEq, Eq)]
pub struct ProgramHeader {
    /// `p_type`
    pub type_: u32,
    /// `p_offset`: where the segment's bytes start in the file.
    pub file_offset: u64,
    /// `p_filesz`: how many bytes of the file the segment has.
    pub file_size: u64,
    /// `p_vaddr`: where the segment starts in memory.
    pub memory_address: u64,
    /// `p_memsz`: how many bytes of memory the segment covers.
    pub memory_size: u64,
}

impl ProgramHeader {
    /// What is kept of `phdr`.
    pub open spec fn of(phdr: Elf64Phdr) -> ProgramHeader {
        ProgramHeader {
            type_: phdr.p_type,
            file_offset: phdr.p_offset,
            file_size: phdr.p_filesz,
            memory_address: phdr.p_vaddr,
            memory_size: phdr.p_memsz,
        }
    }

    /// Whether the segment's file range lies within a file of `len` bytes.
    pub open spec fn in_bounds(self, len: nat) -> bool {
        self.file_offset + self.file_size <= len
    }

    /// The segment's bytes in the file `data`, if its range lies within it.
    pub open spec fn spec_get_data(self, data: Seq<u8>) -> Option<Seq<u8>> {
        if self.in_bounds(data.len()) {
            Some(data.subrange(self.file_offset as int, self.file_offset + self.file_size))
        } else {
            None
        }
    }

    /// Borrows the segment's bytes from the file `data`.
    pub fn get_data<'d>(&self, data: &'d [u8]) -> (r: Option<&'d [u8]>)
        ensures
            match self.spec_get_data(data@) {
                Some(bytes) => r is Some && r->Some_0@ == bytes,
                None => r is None,
            },
    {
        let len: u64 = data.len() as u64;
        if self.file_offset > len || self.file_size > len - self.file_offset {
            return None;
        }
        let start: usize = self.file_offset as usize;
        let end: usize = start + self.file_size as usize;
        Some(&data[start..end])
    }
}

impl From<&Elf64Phdr> for ProgramHeader {
    fn from(phdr: &Elf64Phdr) -> (r: ProgramHeader) {
        ProgramHeader {
            type_: phdr.p_type,
            file_offset: phdr.p_offset,
            file_size: phdr.p_filesz,
            memory_address: phdr.p_vaddr,
            memory_size: phdr.p_memsz,
        }
    }
}

impl FromSpecImpl<&Elf64Phdr> for ProgramHeader {
    open spec fn obeys_from_spec() -> bool {
        true
    }

    open spec fn from_spec(phdr: &Elf64Phdr) -> ProgramHeader {
        ProgramHeader::of(*phdr)
    }
}

/// A note: its type, the name of its owner without the NUL that ends it,
/// and its description. Both borrow from the file.
#[derive(Clone, Copy, Debug)]
pub struct Note<'d> {
    pub type_: u32,
    pub name: &'d [u8],
    pub desc: &'d [u8],
}

/// What a [`Note`] holds, with its name and description as sequences.
pub struct NoteView {
    pub type_: u32,
    pub name: Seq<u8>,
    pub desc: Seq<u8>,
}

impl<'d> View for Note<'d> {
    type V = NoteView;

    open spec fn view(&self) -> NoteView {
        NoteView { type_: self.type_, name: self.name@, desc: self.desc@ }
    }
}

/// What the file header at the start of `data` gives.
pub open spec fn spec_parse_header(data: Seq<u8>) -> Result<Header, ParseError> {
    match Elf64Ehdr::spec_parse(data) {
        Ok(ehdr) => Ok(Header::of(ehdr)),
        Err(e) => Err(e),
    }
}

/// Reads and checks the file header at the start of `data`.
pub fn parse_header(data: &[u8]) -> (r: Result<Header, ParseError>)
    ensures
        r == spec_parse_header(data@),
{
    let ehdr = Elf64Ehdr::parse(data)?;
    Ok(Header::from(&ehdr))
}

/// What a table of `count` program headers at the start of `data` gives.
pub open spec fn spec_parse_program_headers(data: Seq<u8>, count: int) -> Result<
    Seq<ProgramHeader>,
    ParseError,
> {
    match Elf64Phdr::spec_parse_n(data, count) {
        Ok(phdrs) => Ok(phdrs.map_values(|phdr: Elf64Phdr| ProgramHeader::of(phdr))),
        Err(e) => Err(e),
    }
}

/// Reads and checks the `count` program headers at the start of `data`.
pub fn parse_program_headers(data: &[u8], count: usize) -> (r: Result<
    Vec<ProgramHeader>,
    ParseError,
>)
    ensures
        match spec_parse_program_headers(data@, count as int) {
            Ok(headers) => r is Ok && r->Ok_0@ == headers,
            Err(e) => r is Err && r->Err_0 == e,
        },
{
    let phdrs = Elf64Phdr::parse_n(data, count)?;
    let ghost wanted = phdrs@.map_values(|phdr: Elf64Phdr| ProgramHeader::of(phdr));
    let mut phs: Vec<ProgramHeader> = Vec::new();
    let mut i: usize = 0;
    while i < phdrs.len()
        invariant
            i <= phdrs@.len(),
            wanted == phdrs@.map_values(|phdr: Elf64Phdr| ProgramHeader::of(phdr)),
            phs@ == wanted.take(i as int),
        decreases phdrs@.len() - i,
    {
        phs.push(ProgramHeader::from(&phdrs[i]));
        assert(phs@ =~= wanted.take(i + 1));
        i += 1;
    }
    assert(phs@ =~= wanted);
    Ok(phs)
}

/// The number of bytes that pad a field of `n` bytes to a multiple of 4.
pub open spec fn spec_padding(n: int) -> int {
    (4 - n % 4) % 4
}

/// The number of bytes that pad a field of `n` bytes to a multiple of 4.
pub fn padding(n: usize) -> (r: usize)
    ensures
        r == spec_padding(n as int),
        r < 4,
{
    (4 - (n % 4)) % 4
}

/// Where the name of the note at the start of `data` ends.
pub open spec fn note_name_end(data: Seq<u8>) -> int {
    NHDR_SIZE + le_u32(data, 0)
}

/// Where the description of the note at the start of `data` starts.
pub open spec fn note_desc_start(data: Seq<u8>) -> int {
    note_name_end(data) + spec_padding(le_u32(data, 0) as int)
}

/// Where the description of the note at the start of `data` ends.
pub open spec fn note_desc_end(data: Seq<u8>) -> int {
    note_desc_start(data) + le_u32(data, 4)
}

/// Where the note at the start of `data` ends, padding included.
pub open spec fn note_end(data: Seq<u8>) -> int {
    note_desc_end(data) + spec_padding(le_u32(data, 4) as int)
}

/// What the note at the start of `data` gives: the note and the number of
/// bytes it takes. The header is followed by the name and the description,
/// each padded to a multiple of 4 bytes, and all of it must lie in `data`.
pub open spec fn spec_parse_note(data: Seq<u8>) -> Result<(NoteView, int), ParseError> {
    if data.len() < NHDR_SIZE {
        Err(ParseError::truncated(Record::Elf64Nhdr))
    } else if note_end(data) > data.len() {
        Err(ParseError { kind: ErrorKind::NoteTruncated })
    } else {
        Ok(
            (
                NoteView {
                    type_: le_u32(data, 8),
                    name: c_string(data.subrange(NHDR_SIZE as int, note_name_end(data))),
                    desc: data.subrange(note_desc_start(data), note_desc_end(data)),
                },
                note_end(data),
            ),
        )
    }
}

/// Reads the note at the start of `data` and hands back what follows it.
pub fn parse_note<'d>(data: &'d [u8]) -> (r: Result<(Note<'d>, &'d [u8]), ParseError>)
    ensures
        match spec_parse_note(data@) {
            Ok((note, used)) => {
                &&& r is Ok
                &&& r->Ok_0.0@ == note
                &&& NHDR_SIZE <= used <= data@.len()
                &&& r->Ok_0.1@ == data@.skip(used)
            },
            Err(e) => r is Err && r->Err_0 == e,
        },
{
    let nhdr = Elf64Nhdr::parse(data)?;
    let mut reader = Reader::new(&data[NHDR_SIZE..data.len()]);

    let name_size = nhdr.n_namesz as usize;
    let desc_size = nhdr.n_descsz as usize;
    let name_padding = padding(name_size);
    let desc_padding = padding(desc_size);

    let name = or_error(reader.read_slice(name_size), ErrorKind::NoteTruncated)?;
    let _pad = or_error(reader.read_slice(name_padding), ErrorKind::NoteTruncated)?;
    let desc = or_error(reader.read_slice(desc_size), ErrorKind::NoteTruncated)?;
    let _pad = or_error(reader.read_slice(desc_padding), ErrorKind::NoteTruncated)?;

    proof {
        let d = data@;
        assert(name@ =~= d.subrange(NHDR_SIZE as int, note_name_end(d)));
        assert(desc@ =~= d.subrange(note_desc_start(d), note_desc_end(d)));
        assert(reader@ =~= d.skip(note_end(d)));
    }
    let note = Note { type_: nhdr.n_type, name: trim_c_string(name), desc };
    Ok((note, reader.remaining()))
}

/// `rest` with the notes `done` in front of it.
pub open spec fn prepend(done: Seq<NoteView>, rest: Result<Seq<NoteView>, ParseError>) -> Result<
    Seq<NoteView>,
    ParseError,
> {
    match rest {
        Ok(notes) => Ok(done + notes),
        Err(e) => Err(e),
    }
}

/// The notes that `data` holds end to end, up to its last byte.
pub open spec fn spec_notes_in(data: Seq<u8>) -> Result<Seq<NoteView>, ParseError>
    decreases data.len(),
{
    if data.len() == 0 {
        Ok(Seq::empty())
    } else {
        match spec_parse_note(data) {
            Err(e) => Err(e),
            Ok((note, used)) => prepend(seq![note], spec_notes_in(data.skip(used))),
        }
    }
}

/// The notes of one segment of the file `data`: none unless it is a note
/// segment, whose file range must lie within the file.
pub open spec fn spec_segment_notes(ph: ProgramHeader, data: Seq<u8>) -> Result<
    Seq<NoteView>,
    ParseError,
> {
    if ph.type_ != PT_NOTE {
        Ok(Seq::empty())
    } else {
        match ph.spec_get_data(data) {
            None => Err(ParseError { kind: ErrorKind::InvalidFileRange(ph) }),
            Some(bytes) => spec_notes_in(bytes),
        }
    }
}

/// The notes of each segment of `phs`, in the order of `phs`.
pub open spec fn notes_by_segment(phs: Seq<ProgramHeader>, data: Seq<u8>) -> Seq<
    Result<Seq<NoteView>, ParseError>,
> {
    Seq::new(phs.len(), |i: int| spec_segment_notes(phs[i], data))
}

/// The notes of all note segments of the file `data`, in the order in which
/// they lie in the segments and the segments stand in `phs`; the first
/// segment that fails decides the error.
pub open spec fn spec_parse_notes(phs: Seq<ProgramHeader>, data: Seq<u8>) -> Result<
    Seq<NoteView>,
    ParseError,
> {
    match collect(notes_by_segment(phs, data)) {
        Ok(groups) => Ok(groups.flatten()),
        Err(e) => Err(e),
    }
}

/// The views of a sequence of notes.
pub open spec fn notes_view(notes: Seq<Note<'_>>) -> Seq<NoteView> {
    notes.map_values(|n: Note| n@)
}

/// Reads the notes of all note segments of the file `data`.
pub fn parse_notes<'d>(phs: &[ProgramHeader], data: &'d [u8]) -> (r: Result<
    Vec<Note<'d>>,
    ParseError,
>)
    ensures
        match spec_parse_notes(phs@, data@) {
            Ok(notes) => r is Ok && notes_view(r->Ok_0@) == notes,
            Err(e) => r is Err && r->Err_0 == e,
        },
{
    let ghost by_segment = notes_by_segment(phs@, data@);
    let ghost mut groups: Seq<Seq<NoteView>> = Seq::empty();
    let mut notes: Vec<Note<'d>> = Vec::new();
    let mut i: usize = 0;
    assert(notes_view(notes@) =~= groups.flatten());
    while i < phs.len()
        invariant
            i <= phs@.len(),
            by_segment == notes_by_segment(phs@, data@),
            collect(by_segment.take(i as int)) == Ok::<Seq<Seq<NoteView>>, ParseError>(groups),
            notes_view(notes@) == groups.flatten(),
        decreases phs@.len() - i,
    {
        let ph = &phs[i];
        let ghost before = notes_view(notes@);
        let ghost mut done: Seq<NoteView> = Seq::empty();
        proof {
            assert(by_segment.take(i + 1).drop_last() =~= by_segment.take(i as int));
            assert(by_segment.take(i + 1).last() == spec_segment_notes(*ph, data@));
            if spec_segment_notes(*ph, data@) is Err {
                lemma_collect_prefix_err(by_segment, i + 1);
            }
            assert(before + done =~= before);
        }
        if ph.type_ == PT_NOTE {
            let mut note_data = match ph.get_data(data) {
                Some(bytes) => bytes,
                None => {
                    return Err(ParseError::new(ErrorKind::InvalidFileRange(*ph)));
                },
            };
            let ghost segment = note_data@;
            while note_data.len() > 0
                invariant
                    spec_notes_in(segment) == prepend(done, spec_notes_in(note_data@)),
                    notes_view(notes@) == before + done,
                    spec_segment_notes(*ph, data@) == spec_notes_in(segment),
                    spec_notes_in(segment) is Err ==> spec_parse_notes(phs@, data@)
                        == spec_notes_in(segment),
                decreases note_data@.len(),
            {
                let ghost old_notes = notes@;
                let (note, rest) = parse_note(note_data)?;
                notes.push(note);
                proof {
                    let tail = spec_notes_in(rest@);
                    assert(prepend(done, prepend(seq![note@], tail)) == prepend(
                        done.push(note@),
                        tail,
                    )) by {
                        if let Ok(t) = tail {
                            assert(done + (seq![note@] + t) =~= done.push(note@) + t);
                        }
                    }
                    done = done.push(note@);
                    assert(notes_view(notes@) =~= notes_view(old_notes).push(note@));
                    assert(notes_view(notes@) =~= before + done);
                }
                note_data = rest;
            }
            proof {
                assert(done + Seq::<NoteView>::empty() =~= done);
            }
        }
        proof {
            assert(spec_segment_notes(*ph, data@) == Ok::<Seq<NoteView>, ParseError>(done));
            groups.lemma_flatten_push(done);
            groups = groups.push(done);
        }
        i += 1;
    }
    proof {
        assert(by_segment.take(i as int) =~= by_segment);
    }
    Ok(notes)
}

/// The parsed container: the program headers and notes of a core file,
/// and the file itself.
#[derive(Debug)]
pub struct Elf<'d> {
    program_headers: Vec<ProgramHeader>,
    notes: Vec<Note<'d>>,
    data: &'d [u8],
}

/// What an [`Elf`] holds.
pub struct ElfView {
    /// The program headers, in table order.
    pub program_headers: Seq<ProgramHeader>,
    /// The notes of all note segments, in the order in which they lie.
    pub notes: Seq<NoteView>,
    /// The bytes of the file.
    pub data: Seq<u8>,
}

impl<'d> View for Elf<'d> {
    type V = ElfView;

    closed spec fn view(&self) -> ElfView {
        ElfView {
            program_headers: self.program_headers@,
            notes: notes_view(self.notes@),
            data: self.data@,
        }
    }
}

/// What the file `data` gives as a container: the file header is checked,
/// the program header table must start within the file and hold as many
/// valid entries as the header says, and every note segment must be a
/// sequence of whole notes. The definition is opaque: `reveal` opens it.
#[verifier::opaque]
pub open spec fn spec_parse_elf(data: Seq<u8>) -> Result<ElfView, ParseError> {
    match spec_parse_header(data) {
        Err(e) => Err(e),
        Ok(header) => if header.ph_offset > data.len() {
            Err(ParseError { kind: ErrorKind::TableOutOfBounds { offset: header.ph_offset } })
        } else {
            match spec_parse_program_headers(
                data.skip(header.ph_offset as int),
                header.ph_count as int,
            ) {
                Err(e) => Err(e),
                Ok(program_headers) => match spec_parse_notes(program_headers, data) {
                    Err(e) => Err(e),
                    Ok(notes) => Ok(ElfView { program_headers, notes, data }),
                },
            }
        },
    }
}

/// The program headers of type `type_`.
pub open spec fn has_type(type_: u32) -> spec_fn(ProgramHeader) -> bool {
    |ph: ProgramHeader| ph.type_ == type_
}

/// The notes of type `type_` whose owner is `name`.
pub open spec fn note_matches(name: Seq<u8>, type_: u32) -> spec_fn(NoteView) -> bool {
    |note: NoteView| note.name == name && note.type_ == type_
}

/// The descriptions of the notes of type `type_` whose owner is `name`, in
/// the order of `notes`.
pub open spec fn spec_descriptions(notes: Seq<NoteView>, name: Seq<u8>, type_: u32) -> Seq<
    Seq<u8>,
> {
    notes.filter(note_matches(name, type_)).map_values(|note: NoteView| note.desc)
}

/// The description of the first note of type `type_` whose owner is `name`.
pub open spec fn spec_get_note(notes: Seq<NoteView>, name: Seq<u8>, type_: u32) -> Option<
    Seq<u8>,
> {
    let found = spec_descriptions(notes, name, type_);
    if found.len() == 0 {
        None
    } else {
        Some(found[0])
    }
}

impl<'d> Elf<'d> {
    /// Parses the container of the core file `data`.
    pub fn parse(data: &'d [u8]) -> (r: Result<Elf<'d>, ParseError>)
        ensures
            match spec_parse_elf(data@) {
                Ok(elf) => r is Ok && r->Ok_0@ == elf,
                Err(e) => r is Err && r->Err_0 == e,
            },
    {
        reveal(spec_parse_elf);
        let header = parse_header(data)?;
        if header.ph_offset > data.len() as u64 {
            return Err(
                ParseError::new(ErrorKind::TableOutOfBounds { offset: header.ph_offset }),
            );
        }
        let ph_data = &data[header.ph_offset as usize..data.len()];
        let program_headers = parse_program_headers(ph_data, header.ph_count)?;
        let notes = parse_notes(program_headers.as_slice(), data)?;
        Ok(Elf { program_headers, notes, data })
    }

    /// The program headers of type `type_`, in table order.
    pub fn iter_program_headers(&self, type_: u32) -> (r: Vec<&ProgramHeader>)
        ensures
            r@.map_values(|ph: &ProgramHeader| *ph) == self@.program_headers.filter(
                has_type(type_),
            ),
    {
        let ghost all = self.program_headers@;
        let mut found: Vec<&ProgramHeader> = Vec::new();
        let mut i: usize = 0;
        assert(found@.map_values(|ph: &ProgramHeader| *ph) =~= all.take(0).filter(
            has_type(type_),
        )) by {
            reveal(Seq::filter);
        }
        while i < self.program_headers.len()
            invariant
                i <= all.len(),
                all == self.program_headers@,
                found@.map_values(|ph: &ProgramHeader| *ph) == all.take(i as int).filter(
                    has_type(type_),
                ),
            decreases all.len() - i,
        {
            let ph = &self.program_headers[i];
            let ghost before = found@;
            proof {
                assert(all.take(i + 1) =~= all.take(i as int).push(*ph));
                lemma_filter_push(all.take(i as int), has_type(type_), *ph);
            }
            if ph.type_ == type_ {
                found.push(ph);
                assert(found@.map_values(|ph: &ProgramHeader| *ph) =~= before.map_values(
                    |ph: &ProgramHeader| *ph,
                ).push(*ph));
            }
            i += 1;
        }
        assert(all.take(i as int) =~= all);
        found
    }

    /// The bytes that the file holds for the segment of `ph`.
    pub fn read_segment(&self, ph: &ProgramHeader) -> (r: Result<&'d [u8], ParseError>)
        ensures
            match ph.spec_get_data(self@.data) {
                Some(bytes) => r is Ok && r->Ok_0@ == bytes,
                None => r is Err && r->Err_0 == (ParseError {
                    kind: ErrorKind::InvalidFileRange(*ph),
                }),
            },
    {
        match ph.get_data(self.data) {
            Some(bytes) => Ok(bytes),
            None => Err(ParseError::new(ErrorKind::InvalidFileRange(*ph))),
        }
    }

    /// The descriptions of the notes of type `type_` whose owner is `name`,
    /// in the order in which the notes lie in the file.
    pub fn iter_notes(&self, name: &[u8], type_: u32) -> (r: Vec<&'d [u8]>)
        ensures
            r@.map_values(|desc: &[u8]| desc@) == spec_descriptions(self@.notes, name@, type_),
    {
        let ghost all = notes_view(self.notes@);
        let ghost pred = note_matches(name@, type_);
        let mut found: Vec<&'d [u8]> = Vec::new();
        let mut i: usize = 0;
        assert(found@.map_values(|desc: &[u8]| desc@) =~= spec_descriptions(
            all.take(0),
            name@,
            type_,
        )) by {
            reveal(Seq::filter);
        }
        while i < self.notes.len()
            invariant
                i <= all.len(),
                all == notes_view(self.notes@),
                pred == note_matches(name@, type_),
                found@.map_values(|desc: &[u8]| desc@) == spec_descriptions(
                    all.take(i as int),
                    name@,
                    type_,
                ),
            decreases all.len() - i,
        {
            let note = &self.notes[i];
            let ghost before = found@;
            proof {
                assert(all.take(i + 1) =~= all.take(i as int).push(note@));
                lemma_filter_push(all.take(i as int), pred, note@);
            }
            if bytes_eq(note.name, name) && note.type_ == type_ {
                found.push(note.desc);
                assert(found@.map_values(|desc: &[u8]| desc@) =~= before.map_values(
                    |desc: &[u8]| desc@,
                ).push(note.desc@));
                assert(spec_descriptions(all.take(i + 1), name@, type_) =~= spec_descriptions(
                    all.take(i as int),
                    name@,
                    type_,
                ).push(note.desc@));
            }
            i += 1;
        }
        assert(all.take(i as int) =~= all);
        found
    }

    /// The description of the first note of type `type_` whose owner is
    /// `name`.
    pub fn get_note(&self, name: &[u8], type_: u32) -> (r: Option<&'d [u8]>)
        ensures
            match spec_get_note(self@.notes, name@, type_) {
                Some(desc) => r is Some && r->Some_0@ == desc,
                None => r is None,
            },
    {
        let ghost all = notes_view(self.notes@);
        let ghost pred = note_matches(name@, type_);
        let mut i: usize = 0;
        assert(all.take(0).filter(pred).len() == 0) by {
            reveal(Seq::filter);
        }
        while i < self.notes.len()
            invariant
                i <= all.len(),
                all == notes_view(self.notes@),
                pred == note_matches(name@, type_),
                all.take(i as int).filter(pred).len() == 0,
            decreases all.len() - i,
        {
            let note = &self.notes[i];
            proof {
                assert(all.take(i + 1) =~= all.take(i as int).push(note@));
                lemma_filter_push(all.take(i as int), pred, note@);
            }
            if bytes_eq(note.name, name) && note.type_ == type_ {
                proof {
                    let head = all.take(i + 1);
                    let tail = all.skip(i + 1);
                    assert(all =~= head + tail);
                    Seq::filter_distributes_over_add(head, tail, pred);
                    assert(head.filter(pred)[0] == note@);
                    assert(all.filter(pred)[0] == note@);
                }
                return Some(note.desc);
            }
            i += 1;
        }
        assert(all.take(i as int) =~= all);
        None
    }
}

/// The name and the description of `note` are byte ranges of `data`.
pub open spec fn note_lies_in(note: NoteView, data: Seq<u8>) -> bool {
    lies_in(note.name, data) && lies_in(note.desc, data)
}

/// A note takes at least its header and at most the bytes there are, and
/// its name and description are byte ranges of the bytes it is read from.
pub proof fn lemma_note_lies_in(data: Seq<u8>)
    requires
        spec_parse_note(data) is Ok,
    ensures
        NHDR_SIZE <= spec_parse_note(data)->Ok_0.1 <= data.len(),
        note_lies_in(spec_parse_note(data)->Ok_0.0, data),
{
    let name_field = data.subrange(NHDR_SIZE as int, note_name_end(data));
    lemma_range_lies_in(data, NHDR_SIZE as int, note_name_end(data));
    lemma_c_string_lies_in(name_field);
    lemma_lies_in_trans(c_string(name_field), name_field, data);
    lemma_range_lies_in(data, note_desc_start(data), note_desc_end(data));
}

/// The names and descriptions of the notes that `data` holds end to end
/// are byte ranges of `data`.
pub proof fn lemma_notes_lie_in(data: Seq<u8>)
    requires
        spec_notes_in(data) is Ok,
    ensures
        forall|i: int|
            0 <= i < spec_notes_in(data)->Ok_0.len() ==> note_lies_in(
                #[trigger] spec_notes_in(data)->Ok_0[i],
                data,
            ),
    decreases data.len(),
{
    if data.len() > 0 {
        let (note, used) = spec_parse_note(data)->Ok_0;
        let rest = data.skip(used);
        lemma_note_lies_in(data);
        lemma_notes_lie_in(rest);
        lemma_range_lies_in(data, used, data.len() as int);
        let notes = spec_notes_in(data)->Ok_0;
        let tail = spec_notes_in(rest)->Ok_0;
        assert forall|i: int| 0 <= i < notes.len() implies note_lies_in(
            #[trigger] notes[i],
            data,
        ) by {
            if i > 0 {
                assert(notes[i] == tail[i - 1]);
                lemma_lies_in_trans(tail[i - 1].name, rest, data);
                lemma_lies_in_trans(tail[i - 1].desc, rest, data);
            }
        }
    }
}

/// The names and descriptions of the notes of the first `n` segments of
/// `phs` are byte ranges of the file `data`.
proof fn lemma_segment_notes_lie_in(phs: Seq<ProgramHeader>, data: Seq<u8>, n: int)
    requires
        0 <= n <= phs.len(),
        collect(notes_by_segment(phs, data).take(n)) is Ok,
    ensures
        forall|i: int|
            #![trigger collect(notes_by_segment(phs, data).take(n))->Ok_0.flatten()[i]]
            0 <= i < collect(notes_by_segment(phs, data).take(n))->Ok_0.flatten().len()
                ==> note_lies_in(
                collect(notes_by_segment(phs, data).take(n))->Ok_0.flatten()[i],
                data,
            ),
    decreases n,
{
    let by_segment = notes_by_segment(phs, data);
    if n > 0 {
        assert(by_segment.take(n).drop_last() =~= by_segment.take(n - 1));
        lemma_segment_notes_lie_in(phs, data, n - 1);
        let before = collect(by_segment.take(n - 1))->Ok_0;
        let ph = phs[n - 1];
        let last = spec_segment_notes(ph, data)->Ok_0;
        assert(by_segment.take(n).last() == spec_segment_notes(ph, data));
        before.lemma_flatten_push(last);
        let all = collect(by_segment.take(n))->Ok_0.flatten();
        assert(all == before.flatten() + last);
        assert forall|i: int| 0 <= i < all.len() implies note_lies_in(#[trigger] all[i], data) by {
            if i >= before.flatten().len() {
                let segment = ph.spec_get_data(data)->Some_0;
                lemma_notes_lie_in(segment);
                lemma_range_lies_in(
                    data,
                    ph.file_offset as int,
                    ph.file_offset + ph.file_size,
                );
                let note = last[i - before.flatten().len()];
                assert(all[i] == note);
                lemma_lies_in_trans(note.name, segment, data);
                lemma_lies_in_trans(note.desc, segment, data);
            } else {
                assert(all[i] == before.flatten()[i]);
            }
        }
    } else {
        assert(collect(by_segment.take(0))->Ok_0.flatten() =~= Seq::<NoteView>::empty());
    }
}

/// A container holds the bytes of its file, and the names and descriptions
/// of its notes are byte ranges of the file.
pub proof fn lemma_elf_lies_in_file(data: Seq<u8>)
    requires
        spec_parse_elf(data) is Ok,
    ensures
        spec_parse_elf(data)->Ok_0.data == data,
        forall|i: int|
            0 <= i < spec_parse_elf(data)->Ok_0.notes.len() ==> note_lies_in(
                #[trigger] spec_parse_elf(data)->Ok_0.notes[i],
                data,
            ),
{
    reveal(spec_parse_elf);
    let phs = spec_parse_elf(data)->Ok_0.program_headers;
    let by_segment = notes_by_segment(phs, data);
    assert(by_segment.take(phs.len() as int) =~= by_segment);
    lemma_segment_notes_lie_in(phs, data, phs.len() as int);
}

/// The description that `spec_get_note` finds is that of one of the notes.
pub proof fn lemma_get_note_is_a_note(notes: Seq<NoteView>, name: Seq<u8>, type_: u32) -> (at: int)
    requires
        spec_get_note(notes, name, type_) is Some,
    ensures
        0 <= at < notes.len(),
        notes[at].desc == spec_get_note(notes, name, type_)->Some_0,
        notes[at].name == name,
        notes[at].type_ == type_,
{
    let pred = note_matches(name, type_);
    let found = notes.filter(pred);
    assert(found.len() > 0);
    notes.lemma_filter_pred(pred, 0);
    assert(found.contains(found[0]));
    notes.lemma_filter_contains_rev(pred, found[0]);
    choose|at: int| 0 <= at < notes.len() && notes[at] == found[0]
}

} // verus!
