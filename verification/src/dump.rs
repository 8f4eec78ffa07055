//! The core dump itself: memory segments, process, threads and file map.

use crate::ctypes::{
    ElfGregset, ElfPrpsinfo, ElfPrpsinfoView, ElfPrstatus, NT_FILE, NT_PRPSINFO, NT_PRSTATUS,
    PT_LOAD,
};
use crate::elf::{
    has_type, spec_descriptions, spec_get_note, spec_parse_elf, Elf, ElfView, ProgramHeader,
};
use crate::error::{
    collect, lemma_collect_prefix_err, or_error, ErrorKind, ParseError, RequiredNote,
};
use crate::laws::{lemma_borrows_lie_in_file, lemma_names_hold_no_nul, lemma_segments_lie_in_file};
use crate::read::{le_u64, lemma_le_u64_skip, Reader};
use crate::util::{c_string, lemma_nul_index, lies_in, nul_index, trim_c_string};
use vstd::prelude::*;
use vstd::std_specs::convert::FromSpecImpl;

verus! {

/// A loaded memory region and the bytes the dump holds for it.
#[derive(Clone, Debug, PartialEq, Eq, PartialOrd, Ord, Hash)]
pub struct Segment<'d> {
    /// First address of the region.
    pub vm_start: u64,
    /// First address behind the region.
    pub vm_end: u64,
    /// The region's bytes, borrowed from the dump.
    pub data: &'d [u8],
}

/// What a [`Segment`] holds, with its bytes as a sequence.
pub struct SegmentView {
    pub vm_start: u64,
    pub vm_end: u64,
    pub data: Seq<u8>,
}

impl<'d> View for Segment<'d> {
    type V = SegmentView;

    open spec fn view(&self) -> SegmentView {
        SegmentView { vm_start: self.vm_start, vm_end: self.vm_end, data: self.data@ }
    }
}

/// The description of the dumped process.
#[derive(Clone, Debug, PartialEq, Eq, PartialOrd, Ord, Hash)]
pub struct ProcessInfo<'d> {
    /// Numeric process state.
    pub state: i8,
    /// The letter for the process state.
    pub state_name: char,
    /// Whether the process was a zombie.
    pub zombie: bool,
    /// The nice value.
    pub nice: i8,
    /// The process flags.
    pub flags: u64,
    pub uid: i32,
    pub gid: i32,
    pub pid: i32,
    pub ppid: i32,
    pub pgrp: i32,
    pub sid: i32,
    /// File name of the executable, without the NUL that ends it.
    pub file_name: &'d [u8],
    /// The start of the command line, without the NUL that ends it.
    pub command: &'d [u8],
}

/// What a [`ProcessInfo`] holds, with its names as sequences.
pub struct ProcessInfoView {
    pub state: i8,
    pub state_name: char,
    pub zombie: bool,
    pub nice: i8,
    pub flags: u64,
    pub uid: i32,
    pub gid: i32,
    pub pid: i32,
    pub ppid: i32,
    pub pgrp: i32,
    pub sid: i32,
    pub file_name: Seq<u8>,
    pub command: Seq<u8>,
}

impl<'d> View for ProcessInfo<'d> {
    type V = ProcessInfoView;

    open spec fn view(&self) -> ProcessInfoView {
        ProcessInfoView {
            state: self.state,
            state_name: self.state_name,
            zombie: self.zombie,
            nice: self.nice,
            flags: self.flags,
            uid: self.uid,
            gid: self.gid,
            pid: self.pid,
            ppid: self.ppid,
            pgrp: self.pgrp,
            sid: self.sid,
            file_name: self.file_name@,
            command: self.command@,
        }
    }
}

impl<'d> ProcessInfo<'d> {
    /// The process that a process description describes: the process is a
    /// zombie when `pr_zomb` is 1, and both names end at their first NUL.
    pub open spec fn of(prpsinfo: ElfPrpsinfoView) -> ProcessInfoView {
        ProcessInfoView {
            state: prpsinfo.pr_state,
            state_name: prpsinfo.pr_sname as char,
            zombie: prpsinfo.pr_zomb == 1,
            nice: prpsinfo.pr_nice,
            flags: prpsinfo.pr_flag,
            uid: prpsinfo.pr_uid,
            gid: prpsinfo.pr_gid,
            pid: prpsinfo.pr_pid,
            ppid: prpsinfo.pr_ppid,
            pgrp: prpsinfo.pr_pgrp,
            sid: prpsinfo.pr_sid,
            file_name: c_string(prpsinfo.pr_fname),
            command: c_string(prpsinfo.pr_psargs),
        }
    }

    /// Builds the process from its description.
    pub fn from(prpsinfo: &ElfPrpsinfo<'d>) -> (r: ProcessInfo<'d>)
        ensures
            r@ == ProcessInfo::of(prpsinfo@),
            !r@.file_name.contains(0u8),
            !r@.command.contains(0u8),
    {
        ProcessInfo {
            state: prpsinfo.pr_state,
            state_name: prpsinfo.pr_sname as char,
            zombie: prpsinfo.pr_zomb == 1,
            nice: prpsinfo.pr_nice,
            flags: prpsinfo.pr_flag,
            uid: prpsinfo.pr_uid,
            gid: prpsinfo.pr_gid,
            pid: prpsinfo.pr_pid,
            ppid: prpsinfo.pr_ppid,
            pgrp: prpsinfo.pr_pgrp,
            sid: prpsinfo.pr_sid,
            file_name: trim_c_string(prpsinfo.pr_fname),
            command: trim_c_string(prpsinfo.pr_psargs),
        }
    }
}

/// The general-purpose registers of a thread.
#[derive(Clone, Debug, PartialEq, Eq, PartialOrd, Ord, Hash)]
pub struct Registers {
    pub rax: u64,
    pub rbx: u64,
    pub rcx: u64,
    pub rdx: u64,
    pub rbp: u64,
    pub rsp: u64,
    pub rsi: u64,
    pub rdi: u64,
    pub r8: u64,
    pub r9: u64,
    pub r10: u64,
    pub r11: u64,
    pub r12: u64,
    pub r13: u64,
    pub r14: u64,
    pub r15: u64,
    pub rip: u64,
    pub rflags: u64,
    pub cs: u64,
    pub ds: u64,
    pub ss: u64,
    pub es: u64,
    pub fs: u64,
    pub gs: u64,
    pub fs_base: u64,
    pub gs_base: u64,
}

impl Registers {
    /// The registers of a register set under their names; `orig_ax` is
    /// dropped.
    pub open spec fn of(gregset: ElfGregset) -> Registers {
        Registers {
            rax: gregset.ax,
            rbx: gregset.bx,
            rcx: gregset.cx,
            rdx: gregset.dx,
            rbp: gregset.bp,
            rsp: gregset.sp,
            rsi: gregset.si,
            rdi: gregset.di,
            r8: gregset.r8,
            r9: gregset.r9,
            r10: gregset.r10,
            r11: gregset.r11,
            r12: gregset.r12,
            r13: gregset.r13,
            r14: gregset.r14,
            r15: gregset.r15,
            rip: gregset.ip,
            rflags: gregset.flags,
            cs: gregset.cs,
            ds: gregset.ds,
            ss: gregset.ss,
            es: gregset.es,
            fs: gregset.fs,
            gs: gregset.gs,
            fs_base: gregset.fs_base,
            gs_base: gregset.gs_base,
        }
    }
}

impl From<&ElfGregset> for Registers {
    /// Names each register of the kernel's register set.
    fn from(gregset: &ElfGregset) -> (r: Registers) {
        Registers {
            rax: gregset.ax,
            rbx: gregset.bx,
            rcx: gregset.cx,
            rdx: gregset.dx,
            rbp: gregset.bp,
            rsp: gregset.sp,
            rsi: gregset.si,
            rdi: gregset.di,
            r8: gregset.r8,
            r9: gregset.r9,
            r10: gregset.r10,
            r11: gregset.r11,
            r12: gregset.r12,
            r13: gregset.r13,
            r14: gregset.r14,
            r15: gregset.r15,
            rip: gregset.ip,
            rflags: gregset.flags,
            cs: gregset.cs,
            ds: gregset.ds,
            ss: gregset.ss,
            es: gregset.es,
            fs: gregset.fs,
            gs: gregset.gs,
            fs_base: gregset.fs_base,
            gs_base: gregset.gs_base,
        }
    }
}

impl FromSpecImpl<&ElfGregset> for Registers {
    open spec fn obeys_from_spec() -> bool {
        true
    }

    open spec fn from_spec(gregset: &ElfGregset) -> Registers {
        Registers::of(*gregset)
    }
}

/// A thread of the dumped process.
#[derive(Clone, Debug, PartialEq, Eq, PartialOrd, Ord, Hash)]
pub struct ThreadInfo {
    /// The thread's id.
    pub pid: i32,
    /// The thread's registers when the dump was taken.
    pub registers: Registers,
}

impl ThreadInfo {
    /// The thread that a thread status describes.
    pub open spec fn of(prstatus: ElfPrstatus) -> ThreadInfo {
        ThreadInfo { pid: prstatus.pr_pid, registers: Registers::of(prstatus.pr_reg) }
    }
}

impl From<&ElfPrstatus> for ThreadInfo {
    /// Keeps the thread's id and names its registers.
    fn from(prstatus: &ElfPrstatus) -> (r: ThreadInfo) {
        ThreadInfo { pid: prstatus.pr_pid, registers: Registers::from(&prstatus.pr_reg) }
    }
}

impl FromSpecImpl<&ElfPrstatus> for ThreadInfo {
    open spec fn obeys_from_spec() -> bool {
        true
    }

    open spec fn from_spec(prstatus: &ElfPrstatus) -> ThreadInfo {
        ThreadInfo::of(*prstatus)
    }
}

/// A file mapped into the memory of the dumped process.
#[derive(Clone, Debug, PartialEq, Eq, PartialOrd, Ord, Hash)]
pub struct FileMapping<'d> {
    /// First address of the mapping.
    pub vm_start: u64,
    /// First address behind the mapping.
    pub vm_end: u64,
    /// Where in the file the mapping starts, in bytes.
    pub file_offset: u64,
    /// Path of the file, without the NUL that ends it.
    pub file_path: &'d [u8],
}

/// What a [`FileMapping`] holds, with its path as a sequence.
pub struct FileMappingView {
    pub vm_start: u64,
    pub vm_end: u64,
    pub file_offset: u64,
    pub file_path: Seq<u8>,
}

impl<'d> View for FileMapping<'d> {
    type V = FileMappingView;

    open spec fn view(&self) -> FileMappingView {
        FileMappingView {
            vm_start: self.vm_start,
            vm_end: self.vm_end,
            file_offset: self.file_offset,
            file_path: self.file_path@,
        }
    }
}

/// The views of a sequence of segments.
pub open spec fn segments_view(segments: Seq<Segment<'_>>) -> Seq<SegmentView> {
    segments.map_values(|s: Segment| s@)
}

/// The name of the owner of the notes that the kernel writes: `CORE`.
pub open spec fn core_owner() -> Seq<u8> {
    seq![0x43u8, 0x4f, 0x52, 0x45]
}

/// The name of the owner of the notes that the kernel writes: `CORE`.
pub fn owner() -> (r: [u8; 4])
    ensures
        r@ == core_owner(),
{
    let r: [u8; 4] = [0x43, 0x4f, 0x52, 0x45];
    assert(r@ =~= core_owner());
    r
}

/// The memory segment of the loadable segment `ph` of the file `data`: the
/// segment must be as large in the file as in memory, must end within the
/// 64-bit address space, and its file range must lie within the file.
pub open spec fn spec_segment(ph: ProgramHeader, data: Seq<u8>) -> Result<SegmentView, ParseError> {
    if ph.memory_size != ph.file_size {
        Err(
            ParseError {
                kind: ErrorKind::SizeMismatch {
                    file_size: ph.file_size,
                    memory_size: ph.memory_size,
                },
            },
        )
    } else if ph.memory_address + ph.memory_size > u64::MAX {
        Err(
            ParseError {
                kind: ErrorKind::SegmentEndOverflow {
                    vm_start: ph.memory_address,
                    memory_size: ph.memory_size,
                },
            },
        )
    } else {
        match ph.spec_get_data(data) {
            None => Err(ParseError { kind: ErrorKind::InvalidFileRange(ph) }),
            Some(bytes) => Ok(
                SegmentView {
                    vm_start: ph.memory_address,
                    vm_end: (ph.memory_address + ph.memory_size) as u64,
                    data: bytes,
                },
            ),
        }
    }
}

/// The loadable segments of a container, in table order.
pub open spec fn load_headers(elf: ElfView) -> Seq<ProgramHeader> {
    elf.program_headers.filter(has_type(PT_LOAD))
}

/// The memory segment of each loadable segment, in table order.
pub open spec fn segments_by_header(elf: ElfView) -> Seq<Result<SegmentView, ParseError>> {
    Seq::new(load_headers(elf).len(), |i: int| spec_segment(load_headers(elf)[i], elf.data))
}

/// The memory segments of a container: one for each loadable segment, in
/// table order; the first one that fails decides the error.
pub open spec fn spec_segments(elf: ElfView) -> Result<Seq<SegmentView>, ParseError> {
    collect(segments_by_header(elf))
}

/// Builds the memory segments from the loadable segments of `elf`.
pub fn extract_segments<'d>(elf: &Elf<'d>) -> (r: Result<Vec<Segment<'d>>, ParseError>)
    ensures
        match spec_segments(elf@) {
            Ok(segments) => r is Ok && segments_view(r->Ok_0@) == segments,
            Err(e) => r is Err && r->Err_0 == e,
        },
{
    let loads = elf.iter_program_headers(PT_LOAD);
    let ghost wanted = segments_by_header(elf@);
    let mut segments: Vec<Segment<'d>> = Vec::new();
    let mut i: usize = 0;
    assert(segments_view(segments@) =~= Seq::empty());
    while i < loads.len()
        invariant
            i <= loads@.len(),
            loads@.map_values(|ph: &ProgramHeader| *ph) == load_headers(elf@),
            wanted == segments_by_header(elf@),
            collect(wanted.take(i as int)) == Ok::<Seq<SegmentView>, ParseError>(
                segments_view(segments@),
            ),
        decreases loads@.len() - i,
    {
        let ph = loads[i];
        proof {
            assert(loads@.map_values(|ph: &ProgramHeader| *ph)[i as int] == *ph);
            assert(wanted.take(i + 1).drop_last() =~= wanted.take(i as int));
            assert(wanted.take(i + 1).last() == spec_segment(*ph, elf@.data));
            if spec_segment(*ph, elf@.data) is Err {
                lemma_collect_prefix_err(wanted, i + 1);
            }
        }
        if ph.memory_size != ph.file_size {
            return Err(
                ParseError::new(
                    ErrorKind::SizeMismatch {
                        file_size: ph.file_size,
                        memory_size: ph.memory_size,
                    },
                ),
            );
        }
        let vm_start = ph.memory_address;
        let vm_end = match vm_start.checked_add(ph.memory_size) {
            Some(end) => end,
            None => {
                return Err(
                    ParseError::new(
                        ErrorKind::SegmentEndOverflow { vm_start, memory_size: ph.memory_size },
                    ),
                );
            },
        };
        let data = elf.read_segment(ph)?;
        let ghost before = segments@;
        segments.push(Segment { vm_start, vm_end, data });
        assert(segments_view(segments@) =~= segments_view(before).push(
            spec_segment(*ph, elf@.data)->Ok_0,
        ));
        i += 1;
    }
    assert(wanted.take(i as int) =~= wanted);
    Ok(segments)
}

/// The process that a container describes: the description of its first
/// `CORE` note of type `NT_PRPSINFO`, which must be there and hold a whole
/// process description.
pub open spec fn spec_process_info(elf: ElfView) -> Result<ProcessInfoView, ParseError> {
    match spec_get_note(elf.notes, core_owner(), NT_PRPSINFO) {
        None => Err(ParseError { kind: ErrorKind::MissingNote(RequiredNote::Prpsinfo) }),
        Some(desc) => match ElfPrpsinfo::spec_parse(desc) {
            Ok(prpsinfo) => Ok(ProcessInfo::of(prpsinfo)),
            Err(e) => Err(e),
        },
    }
}

/// Builds the process from the `NT_PRPSINFO` note of `elf`.
pub fn extract_process_info<'d>(elf: &Elf<'d>) -> (r: Result<ProcessInfo<'d>, ParseError>)
    ensures
        match spec_process_info(elf@) {
            Ok(process) => r is Ok && r->Ok_0@ == process,
            Err(e) => r is Err && r->Err_0 == e,
        },
{
    let name = owner();
    let data = match elf.get_note(name.as_slice(), NT_PRPSINFO) {
        Some(desc) => desc,
        None => {
            return Err(ParseError::new(ErrorKind::MissingNote(RequiredNote::Prpsinfo)));
        },
    };
    let prpsinfo = ElfPrpsinfo::parse(data)?;
    Ok(ProcessInfo::from(&prpsinfo))
}

/// The thread that the description of an `NT_PRSTATUS` note describes.
pub open spec fn spec_thread(desc: Seq<u8>) -> Result<ThreadInfo, ParseError> {
    match ElfPrstatus::spec_parse(desc) {
        Ok(prstatus) => Ok(ThreadInfo::of(prstatus)),
        Err(e) => Err(e),
    }
}

/// The descriptions of the `CORE` notes of type `NT_PRSTATUS` of a
/// container, in the order in which the notes lie in the file.
pub open spec fn thread_notes(elf: ElfView) -> Seq<Seq<u8>> {
    spec_descriptions(elf.notes, core_owner(), NT_PRSTATUS)
}

/// The thread of each `NT_PRSTATUS` note, in the order of the notes.
pub open spec fn threads_by_note(elf: ElfView) -> Seq<Result<ThreadInfo, ParseError>> {
    Seq::new(thread_notes(elf).len(), |i: int| spec_thread(thread_notes(elf)[i]))
}

/// The threads of a container: one for each `NT_PRSTATUS` note, in the
/// order of the notes; the first note that fails decides the error.
pub open spec fn spec_threads(elf: ElfView) -> Result<Seq<ThreadInfo>, ParseError> {
    collect(threads_by_note(elf))
}

/// Builds the threads from the `NT_PRSTATUS` notes of `elf`.
pub fn extract_thread_infos(elf: &Elf<'_>) -> (r: Result<Vec<ThreadInfo>, ParseError>)
    ensures
        match spec_threads(elf@) {
            Ok(threads) => r is Ok && r->Ok_0@ == threads,
            Err(e) => r is Err && r->Err_0 == e,
        },
{
    let name = owner();
    let descs = elf.iter_notes(name.as_slice(), NT_PRSTATUS);
    let ghost wanted = threads_by_note(elf@);
    let mut threads: Vec<ThreadInfo> = Vec::new();
    let mut i: usize = 0;
    while i < descs.len()
        invariant
            i <= descs@.len(),
            descs@.map_values(|desc: &[u8]| desc@) == thread_notes(elf@),
            wanted == threads_by_note(elf@),
            collect(wanted.take(i as int)) == Ok::<Seq<ThreadInfo>, ParseError>(threads@),
        decreases descs@.len() - i,
    {
        let desc = descs[i];
        proof {
            assert(descs@.map_values(|desc: &[u8]| desc@)[i as int] == desc@);
            assert(wanted.take(i + 1).drop_last() =~= wanted.take(i as int));
            assert(wanted.take(i + 1).last() == spec_thread(desc@));
            if spec_thread(desc@) is Err {
                lemma_collect_prefix_err(wanted, i + 1);
            }
        }
        let prstatus = ElfPrstatus::parse(desc)?;
        threads.push(ThreadInfo::from(&prstatus));
        i += 1;
    }
    assert(wanted.take(i as int) =~= wanted);
    Ok(threads)
}

/// The views of a sequence of file mappings.
pub open spec fn mappings_view(mappings: Seq<FileMapping<'_>>) -> Seq<FileMappingView> {
    mappings.map_values(|m: FileMapping| m@)
}

/// The size of the header of a file map: the entry count and the page size.
pub const FILE_MAP_HEADER_SIZE: usize = 16;

/// The size of one entry of a file map.
pub const FILE_MAP_ENTRY_SIZE: usize = 24;

/// Where entry `i` of a file map starts.
pub open spec fn entry_start(i: int) -> int {
    FILE_MAP_HEADER_SIZE + FILE_MAP_ENTRY_SIZE * i
}

/// The entry that `bytes` start with, for pages of `page_size` bytes, still
/// without its path: the start and end address and the index of the first
/// page in the file. The entry must lie within `bytes`, and its offset in
/// the file, the page index times the page size, must fit in 64 bits.
pub open spec fn spec_entry(bytes: Seq<u8>, page_size: u64) -> Result<FileMappingView, ParseError> {
    let page_index = le_u64(bytes, 16);
    if bytes.len() < FILE_MAP_ENTRY_SIZE {
        Err(ParseError { kind: ErrorKind::FileMapTruncated })
    } else if page_index * page_size > u64::MAX {
        Err(ParseError { kind: ErrorKind::FileOffsetOverflow { page_index, page_size } })
    } else {
        Ok(
            FileMappingView {
                vm_start: le_u64(bytes, 0),
                vm_end: le_u64(bytes, 8),
                file_offset: (page_index * page_size) as u64,
                file_path: Seq::empty(),
            },
        )
    }
}

/// Entry `i` of the file map `desc`, still without its path.
pub open spec fn spec_file_map_entry(desc: Seq<u8>, i: int) -> Result<
    FileMappingView,
    ParseError,
> {
    if entry_start(i) > desc.len() {
        Err(ParseError { kind: ErrorKind::FileMapTruncated })
    } else {
        spec_entry(desc.skip(entry_start(i)), le_u64(desc, 8))
    }
}

/// The entries of the file map `desc`, as many as its first field says.
pub open spec fn file_map_entries(desc: Seq<u8>) -> Seq<Result<FileMappingView, ParseError>> {
    Seq::new(le_u64(desc, 0) as nat, |i: int| spec_file_map_entry(desc, i))
}

/// The first path of a block of paths and what follows it. A path ends at
/// the first NUL or, without one, at the end of the block; an empty block
/// holds no path.
pub open spec fn spec_next_path(block: Seq<u8>) -> Option<(Seq<u8>, Seq<u8>)> {
    if block.len() == 0 {
        None
    } else if nul_index(block) < block.len() {
        Some((c_string(block), block.skip(nul_index(block) + 1)))
    } else {
        Some((block, Seq::empty()))
    }
}

/// The first `n` paths of a block of paths, if it holds that many.
pub open spec fn spec_paths(block: Seq<u8>, n: nat) -> Option<Seq<Seq<u8>>>
    decreases n,
{
    if n == 0 {
        Some(Seq::empty())
    } else {
        match spec_next_path(block) {
            None => None,
            Some((path, rest)) => match spec_paths(rest, (n - 1) as nat) {
                None => None,
                Some(paths) => Some(seq![path] + paths),
            },
        }
    }
}

/// The entry with `path` as its path.
pub open spec fn with_path(entry: FileMappingView, path: Seq<u8>) -> FileMappingView {
    FileMappingView {
        vm_start: entry.vm_start,
        vm_end: entry.vm_end,
        file_offset: entry.file_offset,
        file_path: path,
    }
}

/// The entries with the paths as their paths, one for one.
pub open spec fn with_paths(entries: Seq<FileMappingView>, paths: Seq<Seq<u8>>) -> Seq<
    FileMappingView,
> {
    Seq::new(entries.len(), |i: int| with_path(entries[i], paths[i]))
}

/// The file map that the description of an `NT_FILE` note holds: the entry
/// count and the page size, then the entries, then one path for each entry
/// in the same order. What follows the last path is not looked at.
pub open spec fn spec_decode_file_map(desc: Seq<u8>) -> Result<Seq<FileMappingView>, ParseError> {
    if desc.len() < FILE_MAP_HEADER_SIZE {
        Err(ParseError { kind: ErrorKind::FileMapTruncated })
    } else {
        match collect(file_map_entries(desc)) {
            Err(e) => Err(e),
            Ok(entries) => match spec_paths(
                desc.skip(entry_start(entries.len() as int)),
                entries.len(),
            ) {
                None => Err(ParseError { kind: ErrorKind::TooFewPaths }),
                Some(paths) => Ok(with_paths(entries, paths)),
            },
        }
    }
}

/// The file map of a container: that of its first `CORE` note of type
/// `NT_FILE`, which must be there.
pub open spec fn spec_file_map(elf: ElfView) -> Result<Seq<FileMappingView>, ParseError> {
    match spec_get_note(elf.notes, core_owner(), NT_FILE) {
        None => Err(ParseError { kind: ErrorKind::MissingNote(RequiredNote::File) }),
        Some(desc) => spec_decode_file_map(desc),
    }
}

/// Reads one entry of a file map, for pages of `page_size` bytes. The
/// entry's path is left empty.
pub fn read_entry<'d>(reader: &mut Reader<'d>, page_size: u64) -> (r: Result<
    FileMapping<'d>,
    ParseError,
>)
    ensures
        match spec_entry(old(reader)@, page_size) {
            Ok(entry) => {
                &&& r is Ok
                &&& r->Ok_0@ == entry
                &&& FILE_MAP_ENTRY_SIZE <= old(reader)@.len()
                &&& final(reader)@ == old(reader)@.skip(FILE_MAP_ENTRY_SIZE as int)
            },
            Err(e) => r is Err && r->Err_0 == e,
        },
{
    let ghost bytes = reader@;
    let no_path = &reader.remaining()[0..0];
    if reader.remaining().len() < FILE_MAP_ENTRY_SIZE {
        return Err(ParseError::new(ErrorKind::FileMapTruncated));
    }
    proof {
        lemma_le_u64_skip(bytes, 8);
        lemma_le_u64_skip(bytes, 16);
    }
    let vm_start = or_error(reader.read_u64(), ErrorKind::FileMapTruncated)?;
    let vm_end = or_error(reader.read_u64(), ErrorKind::FileMapTruncated)?;
    assert(reader@ =~= bytes.skip(16));
    let page_index = or_error(reader.read_u64(), ErrorKind::FileMapTruncated)?;
    assert(reader@ =~= bytes.skip(24));
    let file_offset = match page_index.checked_mul(page_size) {
        Some(offset) => offset,
        None => {
            return Err(ParseError::new(ErrorKind::FileOffsetOverflow { page_index, page_size }));
        },
    };
    assert(no_path@ =~= Seq::empty());
    Ok(FileMapping { vm_start, vm_end, file_offset, file_path: no_path })
}

/// Splits the first path off a block of paths.
pub fn next_path<'d>(block: &'d [u8]) -> (r: Option<(&'d [u8], &'d [u8])>)
    ensures
        match spec_next_path(block@) {
            Some((path, rest)) => r is Some && r->Some_0.0@ == path && r->Some_0.1@ == rest,
            None => r is None,
        },
{
    if block.len() == 0 {
        return None;
    }
    let path = trim_c_string(block);
    proof {
        lemma_nul_index(block@);
    }
    if path.len() < block.len() {
        Some((path, &block[path.len() + 1..block.len()]))
    } else {
        assert(path@ =~= block@);
        Some((path, &block[block.len()..block.len()]))
    }
}

/// `rest` with the paths `done` in front of it.
pub open spec fn prepend_paths(done: Seq<Seq<u8>>, rest: Option<Seq<Seq<u8>>>) -> Option<
    Seq<Seq<u8>>,
> {
    match rest {
        Some(paths) => Some(done + paths),
        None => None,
    }
}

/// Gives each mapping its path: the paths of `block`, in order. Fails if
/// `block` holds fewer paths than there are mappings.
pub fn assign_paths<'d>(mappings: &mut Vec<FileMapping<'d>>, block: &'d [u8]) -> (r: Result<
    (),
    ParseError,
>)
    ensures
        final(mappings)@.len() == old(mappings)@.len(),
        match spec_paths(block@, old(mappings)@.len()) {
            Some(paths) => {
                &&& r is Ok
                &&& mappings_view(final(mappings)@) == with_paths(
                    mappings_view(old(mappings)@),
                    paths,
                )
            },
            None => r is Err && r->Err_0 == (ParseError { kind: ErrorKind::TooFewPaths }),
        },
{
    let ghost entries = mappings_view(mappings@);
    let ghost mut done: Seq<Seq<u8>> = Seq::empty();
    let mut rest = block;
    let mut j: usize = 0;
    proof {
        if let Some(all) = spec_paths(block@, entries.len()) {
            assert(done + all =~= all);
        }
    }
    while j < mappings.len()
        invariant
            j <= entries.len(),
            done.len() == j,
            mappings@.len() == entries.len(),
            entries.len() == old(mappings)@.len(),
            spec_paths(block@, entries.len()) == prepend_paths(
                done,
                spec_paths(rest@, (entries.len() - j) as nat),
            ),
            forall|k: int|
                0 <= k < j ==> (#[trigger] mappings@[k])@ == with_path(entries[k], done[k]),
            forall|k: int| j <= k < entries.len() ==> (#[trigger] mappings@[k])@ == entries[k],
        decreases entries.len() - j,
    {
        let (path, after) = match next_path(rest) {
            Some(found) => found,
            None => {
                return Err(ParseError::new(ErrorKind::TooFewPaths));
            },
        };
        proof {
            let tail = spec_paths(after@, (entries.len() - j - 1) as nat);
            if let Some(t) = tail {
                assert(done + (seq![path@] + t) =~= done.push(path@) + t);
            }
            done = done.push(path@);
        }
        let ghost before = mappings@;
        mappings[j].file_path = path;
        proof {
            assert(mappings@.len() == before.len());
            assert(mappings@[j as int]@ == with_path(entries[j as int], path@));
            assert forall|k: int| 0 <= k < j implies (#[trigger] mappings@[k])@ == with_path(
                entries[k],
                done[k],
            ) by {
                assert(mappings@[k] == before[k]);
            }
            assert forall|k: int| j < k < entries.len() implies (#[trigger] mappings@[k])@
                == entries[k] by {
                assert(mappings@[k] == before[k]);
            }
        }
        rest = after;
        j += 1;
    }
    proof {
        assert(done + Seq::<Seq<u8>>::empty() =~= done);
        assert(mappings_view(mappings@) =~= with_paths(entries, done));
    }
    Ok(())
}

/// Decodes the description of an `NT_FILE` note.
pub fn decode_file_map<'d>(desc: &'d [u8]) -> (r: Result<Vec<FileMapping<'d>>, ParseError>)
    ensures
        match spec_decode_file_map(desc@) {
            Ok(mappings) => r is Ok && mappings_view(r->Ok_0@) == mappings,
            Err(e) => r is Err && r->Err_0 == e,
        },
{
    let mut reader = Reader::new(desc);
    proof {
        if desc@.len() >= FILE_MAP_HEADER_SIZE {
            lemma_le_u64_skip(desc@, 8);
        }
    }
    let count = or_error(reader.read_u64(), ErrorKind::FileMapTruncated)?;
    let page_size = or_error(reader.read_u64(), ErrorKind::FileMapTruncated)?;

    let ghost wanted = file_map_entries(desc@);
    let mut mappings: Vec<FileMapping<'d>> = Vec::new();
    let mut i: u64 = 0;
    assert(mappings_view(mappings@) =~= Seq::empty());
    assert(reader@ =~= desc@.skip(entry_start(0)));
    while i < count
        invariant
            i <= count,
            count == le_u64(desc@, 0),
            page_size == le_u64(desc@, 8),
            wanted == file_map_entries(desc@),
            entry_start(i as int) <= desc@.len(),
            reader@ == desc@.skip(entry_start(i as int)),
            mappings@.len() == i,
            collect(wanted.take(i as int)) == Ok::<Seq<FileMappingView>, ParseError>(
                mappings_view(mappings@),
            ),
        decreases count - i,
    {
        proof {
            assert(wanted.take(i + 1).drop_last() =~= wanted.take(i as int));
            assert(wanted.take(i + 1).last() == spec_file_map_entry(desc@, i as int));
            if spec_file_map_entry(desc@, i as int) is Err {
                lemma_collect_prefix_err(wanted, i + 1);
            }
        }
        let entry = read_entry(&mut reader, page_size)?;
        let ghost before = mappings@;
        mappings.push(entry);
        proof {
            assert(reader@ =~= desc@.skip(entry_start(i + 1)));
            assert(mappings_view(mappings@) =~= mappings_view(before).push(entry@));
        }
        i += 1;
    }
    proof {
        assert(wanted.take(i as int) =~= wanted);
    }
    assign_paths(&mut mappings, reader.remaining())?;
    Ok(mappings)
}

/// Builds the file map from the `NT_FILE` note of `elf`.
pub fn extract_file_map<'d>(elf: &Elf<'d>) -> (r: Result<Vec<FileMapping<'d>>, ParseError>)
    ensures
        match spec_file_map(elf@) {
            Ok(mappings) => r is Ok && mappings_view(r->Ok_0@) == mappings,
            Err(e) => r is Err && r->Err_0 == e,
        },
{
    let name = owner();
    let data = match elf.get_note(name.as_slice(), NT_FILE) {
        Some(desc) => desc,
        None => {
            return Err(ParseError::new(ErrorKind::MissingNote(RequiredNote::File)));
        },
    };
    decode_file_map(data)
}

/// The state of a process at the time its core was dumped.
#[derive(Clone, Debug, PartialEq, Eq, PartialOrd, Ord, Hash)]
pub struct Core<'d> {
    /// The memory segments, in the order of the program header table.
    pub segments: Vec<Segment<'d>>,
    /// The process.
    pub process: ProcessInfo<'d>,
    /// The threads, in the order of their notes.
    pub threads: Vec<ThreadInfo>,
    /// The files mapped into memory, in the order of the file map.
    pub file_map: Vec<FileMapping<'d>>,
}

/// What a [`Core`] holds.
pub struct CoreView {
    pub segments: Seq<SegmentView>,
    pub process: ProcessInfoView,
    pub threads: Seq<ThreadInfo>,
    pub file_map: Seq<FileMappingView>,
}

impl<'d> View for Core<'d> {
    type V = CoreView;

    open spec fn view(&self) -> CoreView {
        CoreView {
            segments: segments_view(self.segments@),
            process: self.process@,
            threads: self.threads@,
            file_map: mappings_view(self.file_map@),
        }
    }
}

/// The core dump that a container holds. Segments, process, threads and
/// file map are built in this order, and the first that fails decides the
/// error.
pub open spec fn spec_core(elf: ElfView) -> Result<CoreView, ParseError> {
    match spec_segments(elf) {
        Err(e) => Err(e),
        Ok(segments) => match spec_process_info(elf) {
            Err(e) => Err(e),
            Ok(process) => match spec_threads(elf) {
                Err(e) => Err(e),
                Ok(threads) => match spec_file_map(elf) {
                    Err(e) => Err(e),
                    Ok(file_map) => Ok(CoreView { segments, process, threads, file_map }),
                },
            },
        },
    }
}

/// The core dump that the file `data` holds.
pub open spec fn spec_parse(data: Seq<u8>) -> Result<CoreView, ParseError> {
    match spec_parse_elf(data) {
        Err(e) => Err(e),
        Ok(elf) => spec_core(elf),
    }
}

/// Every byte sequence that `core` holds is a byte range of `data`: the
/// bytes of each segment, both names of the process and the path of each
/// file mapping.
pub open spec fn borrows_lie_in(core: CoreView, data: Seq<u8>) -> bool {
    &&& forall|i: int|
        0 <= i < core.segments.len() ==> lies_in((#[trigger] core.segments[i]).data, data)
    &&& lies_in(core.process.file_name, data)
    &&& lies_in(core.process.command, data)
    &&& forall|i: int|
        0 <= i < core.file_map.len() ==> lies_in((#[trigger] core.file_map[i]).file_path, data)
}

impl<'d> Core<'d> {
    /// What a result of [`Core::parse`] holds.
    pub open spec fn outcome(r: Result<Core<'d>, ParseError>) -> Result<CoreView, ParseError> {
        match r {
            Ok(core) => Ok(core@),
            Err(e) => Err(e),
        }
    }

    /// Decodes the core file `data`. Everything the result borrows, it
    /// borrows from `data`.
    pub fn parse(data: &'d [u8]) -> (r: Result<Core<'d>, ParseError>)
        ensures
            Core::outcome(r) == spec_parse(data@),
            r matches Ok(core) ==> {
                &&& forall|i: int|
                    0 <= i < core@.segments.len() ==> (#[trigger] core@.segments[i]).vm_end
                        == core@.segments[i].vm_start + core@.segments[i].data.len()
                &&& !core@.process.file_name.contains(0u8)
                &&& !core@.process.command.contains(0u8)
                &&& borrows_lie_in(core@, data@)
            },
    {
        let elf = Elf::parse(data)?;
        let segments = extract_segments(&elf)?;
        let process = extract_process_info(&elf)?;
        let threads = extract_thread_infos(&elf)?;
        let file_map = extract_file_map(&elf)?;
        let core = Core { segments, process, threads, file_map };
        proof {
            assert(spec_parse(data@) == Ok::<CoreView, ParseError>(core@));
            lemma_segments_lie_in_file(data@);
            lemma_names_hold_no_nul(data@);
            lemma_borrows_lie_in_file(data@);
        }
        Ok(core)
    }
}

} // verus!
