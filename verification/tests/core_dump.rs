use licore::elf::Elf;
use licore::error::{ErrorKind, HeaderField, ParseError, Record, RequiredNote};
use licore::{Core, FileMapping, ProgramHeader};

const PT_LOAD: u32 = 1;
const PT_NOTE: u32 = 4;
const NT_PRSTATUS: u32 = 1;
const NT_PRPSINFO: u32 = 3;
const NT_FILE: u32 = 0x4649_4c45;

fn ehdr(phoff: u64, phnum: u16) -> Vec<u8> {
    let mut h = vec![0x7f, b'E', b'L', b'F', 2, 1, 1, 0];
    h.extend_from_slice(&[0; 8]);
    h.extend_from_slice(&4u16.to_le_bytes());
    h.extend_from_slice(&62u16.to_le_bytes());
    h.extend_from_slice(&1u32.to_le_bytes());
    h.extend_from_slice(&0u64.to_le_bytes());
    h.extend_from_slice(&phoff.to_le_bytes());
    h.extend_from_slice(&0u64.to_le_bytes());
    h.extend_from_slice(&0u32.to_le_bytes());
    h.extend_from_slice(&64u16.to_le_bytes());
    h.extend_from_slice(&56u16.to_le_bytes());
    h.extend_from_slice(&phnum.to_le_bytes());
    h.extend_from_slice(&64u16.to_le_bytes());
    h.extend_from_slice(&0u16.to_le_bytes());
    h.extend_from_slice(&0u16.to_le_bytes());
    assert_eq!(h.len(), 64);
    h
}

struct Ph {
    type_: u32,
    offset: u64,
    vaddr: u64,
    paddr: u64,
    filesz: u64,
    memsz: u64,
    align: u64,
}

fn phdr(p: &Ph) -> Vec<u8> {
    let mut h = Vec::new();
    h.extend_from_slice(&p.type_.to_le_bytes());
    h.extend_from_slice(&0u32.to_le_bytes());
    h.extend_from_slice(&p.offset.to_le_bytes());
    h.extend_from_slice(&p.vaddr.to_le_bytes());
    h.extend_from_slice(&p.paddr.to_le_bytes());
    h.extend_from_slice(&p.filesz.to_le_bytes());
    h.extend_from_slice(&p.memsz.to_le_bytes());
    h.extend_from_slice(&p.align.to_le_bytes());
    assert_eq!(h.len(), 56);
    h
}

fn note(name: &[u8], type_: u32, desc: &[u8]) -> Vec<u8> {
    let mut n = Vec::new();
    n.extend_from_slice(&((name.len() + 1) as u32).to_le_bytes());
    n.extend_from_slice(&(desc.len() as u32).to_le_bytes());
    n.extend_from_slice(&type_.to_le_bytes());
    n.extend_from_slice(name);
    n.push(0);
    while n.len() % 4 != 0 {
        n.push(0);
    }
    n.extend_from_slice(desc);
    while n.len() % 4 != 0 {
        n.push(0);
    }
    n
}

fn prpsinfo(fname: &[u8], psargs: &[u8]) -> Vec<u8> {
    let mut d = vec![0u8; 136];
    d[0] = 0xff;
    d[1] = b'R';
    d[2] = 1;
    d[3] = 0xf6;
    d[8..16].copy_from_slice(&0x0040_0600u64.to_le_bytes());
    d[16..20].copy_from_slice(&1000i32.to_le_bytes());
    d[20..24].copy_from_slice(&1001i32.to_le_bytes());
    d[24..28].copy_from_slice(&4242i32.to_le_bytes());
    d[28..32].copy_from_slice(&1i32.to_le_bytes());
    d[32..36].copy_from_slice(&(-7i32).to_le_bytes());
    d[36..40].copy_from_slice(&4200i32.to_le_bytes());
    d[40..40 + fname.len()].copy_from_slice(fname);
    d[56..56 + psargs.len()].copy_from_slice(psargs);
    d
}

fn prstatus(pid: i32, regs: &[u64; 27]) -> Vec<u8> {
    let mut d = vec![0u8; 336];
    d[32..36].copy_from_slice(&pid.to_le_bytes());
    for (i, r) in regs.iter().enumerate() {
        d[112 + 8 * i..120 + 8 * i].copy_from_slice(&r.to_le_bytes());
    }
    d
}

fn regs_with_ip(ip: u64) -> [u64; 27] {
    let mut regs = [0u64; 27];
    regs[16] = ip;
    regs
}

fn file_note(count: u64, page_size: u64, entries: &[(u64, u64, u64)], paths: &[u8]) -> Vec<u8> {
    let mut d = Vec::new();
    d.extend_from_slice(&count.to_le_bytes());
    d.extend_from_slice(&page_size.to_le_bytes());
    for (start, end, page) in entries {
        d.extend_from_slice(&start.to_le_bytes());
        d.extend_from_slice(&end.to_le_bytes());
        d.extend_from_slice(&page.to_le_bytes());
    }
    d.extend_from_slice(paths);
    d
}

/// A file with one note segment that holds `notes`, followed by the given
/// loadable segments, each with its bytes. The bytes of a segment are laid
/// at the offset that its header names.
fn core_file(notes: &[u8], loads: &[(Ph, Vec<u8>)]) -> Vec<u8> {
    let phnum = 1 + loads.len();
    let notes_at = 64 + 56 * phnum;
    let mut file = ehdr(64, phnum as u16);
    file.extend(phdr(&Ph {
        type_: PT_NOTE,
        offset: notes_at as u64,
        vaddr: 0,
        paddr: 0,
        filesz: notes.len() as u64,
        memsz: 0,
        align: 4,
    }));
    for (ph, _) in loads {
        file.extend(phdr(ph));
    }
    file.extend_from_slice(notes);
    for (ph, bytes) in loads {
        let at = ph.offset as usize;
        if file.len() < at + bytes.len() {
            file.resize(at + bytes.len(), 0);
        }
        file[at..at + bytes.len()].copy_from_slice(bytes);
    }
    file
}

fn required_notes() -> Vec<u8> {
    let mut notes = note(b"CORE", NT_PRPSINFO, &prpsinfo(b"init", b"/sbin/init --quiet"));
    notes.extend(note(b"CORE", NT_FILE, &file_note(0, 0x1000, &[], b"")));
    notes
}

fn kind_of<T: std::fmt::Debug>(r: Result<T, ParseError>) -> ErrorKind {
    r.unwrap_err().kind
}

#[test]
fn truncated_header_is_not_enough_data() {
    let file = core_file(&required_notes(), &[]);
    for len in 0..64 {
        let err = Core::parse(&file[..len]).unwrap_err();
        assert_eq!(err.kind, ErrorKind::NotEnoughData(Record::Elf64Ehdr));
        assert_eq!(err.message(), "Elf64_Ehdr: not enough data");
        assert_eq!(err.to_string(), "parse error: Elf64_Ehdr: not enough data");
    }
    assert!(Core::parse(&file[..64]).unwrap_err().kind != ErrorKind::NotEnoughData(Record::Elf64Ehdr));
}

#[test]
fn flipped_magic_byte_is_rejected() {
    for i in 0..4 {
        let mut file = core_file(&required_notes(), &[]);
        file[i] ^= 0x01;
        let mut magic = [0x7f, b'E', b'L', b'F'];
        magic[i] ^= 0x01;
        assert_eq!(kind_of(Core::parse(&file)), ErrorKind::InvalidMagic { magic });
    }
    let mut file = core_file(&required_notes(), &[]);
    file[0] = 0x7e;
    assert_eq!(
        Core::parse(&file).unwrap_err().message(),
        "Elf64_Ehdr: invalid e_ident.magic value: got [126, 69, 76, 70], expected: [127, 69, 76, 70]"
    );
}

fn with_bytes(at: usize, bytes: &[u8]) -> Vec<u8> {
    let mut file = core_file(&required_notes(), &[]);
    file[at..at + bytes.len()].copy_from_slice(bytes);
    file
}

#[test]
fn wrong_class_is_rejected() {
    let err = Core::parse(&with_bytes(4, &[1])).unwrap_err();
    assert_eq!(
        err.kind,
        ErrorKind::InvalidValue { field: HeaderField::IdentClass, got: 1, expected: 2 }
    );
    assert_eq!(err.message(), "Elf64_Ehdr: invalid e_ident.class value: got 1, expected: 2");
}

#[test]
fn wrong_data_encoding_is_rejected() {
    let err = Core::parse(&with_bytes(5, &[2])).unwrap_err();
    assert_eq!(
        err.kind,
        ErrorKind::InvalidValue { field: HeaderField::IdentData, got: 2, expected: 1 }
    );
    assert_eq!(err.message(), "Elf64_Ehdr: invalid e_ident.data value: got 2, expected: 1");
}

#[test]
fn wrong_machine_is_rejected() {
    let err = Core::parse(&with_bytes(18, &183u16.to_le_bytes())).unwrap_err();
    assert_eq!(
        err.kind,
        ErrorKind::InvalidValue { field: HeaderField::Machine, got: 183, expected: 62 }
    );
    assert_eq!(err.message(), "Elf64_Ehdr: invalid e_machine value: got 183, expected: 62");
}

#[test]
fn every_enforced_header_field_is_checked() {
    let cases: Vec<(usize, Vec<u8>, HeaderField, u32, u32)> = vec![
        (6, vec![0], HeaderField::IdentVersion, 0, 1),
        (7, vec![3], HeaderField::IdentOsabi, 3, 0),
        (16, 2u16.to_le_bytes().to_vec(), HeaderField::Type, 2, 4),
        (20, 0x0102_0304u32.to_le_bytes().to_vec(), HeaderField::Version, 0x0102_0304, 1),
        (52, 0x1234u16.to_le_bytes().to_vec(), HeaderField::Ehsize, 0x1234, 64),
        (54, 32u16.to_le_bytes().to_vec(), HeaderField::Phentsize, 32, 56),
        (58, 40u16.to_le_bytes().to_vec(), HeaderField::Shentsize, 40, 64),
    ];
    for (at, bytes, field, got, expected) in cases {
        let err = Core::parse(&with_bytes(at, &bytes)).unwrap_err();
        assert_eq!(err.kind, ErrorKind::InvalidValue { field, got, expected });
    }
}

#[test]
fn header_checks_come_in_order() {
    let mut file = core_file(&required_notes(), &[]);
    file[4] = 1;
    file[5] = 2;
    file[18] = 0;
    assert_eq!(
        kind_of(Core::parse(&file)),
        ErrorKind::InvalidValue { field: HeaderField::IdentClass, got: 1, expected: 2 }
    );
    file[0] = 0;
    assert_eq!(kind_of(Core::parse(&file)), ErrorKind::InvalidMagic { magic: [0, b'E', b'L', b'F'] });
}

fn load(offset: u64, vaddr: u64, size: u64) -> Ph {
    Ph { type_: PT_LOAD, offset, vaddr, paddr: 0, filesz: size, memsz: size, align: 0x1000 }
}

#[test]
fn unaligned_virtual_address_is_rejected() {
    let ph = Ph { type_: PT_LOAD, offset: 0x1000, vaddr: 0x1001, paddr: 0, filesz: 0, memsz: 0, align: 8 };
    let file = core_file(&required_notes(), &[(ph, vec![])]);
    let err = Core::parse(&file).unwrap_err();
    assert_eq!(err.kind, ErrorKind::UnalignedVaddr(0x1001));
    assert_eq!(err.message(), "Elf64_Phdr: unaligned p_vaddr value: 0x1001");
}

#[test]
fn unaligned_physical_address_is_rejected() {
    let ph = Ph { type_: PT_LOAD, offset: 0x1000, vaddr: 0x1000, paddr: 0xabc, filesz: 0, memsz: 0, align: 16 };
    let file = core_file(&required_notes(), &[(ph, vec![])]);
    let err = Core::parse(&file).unwrap_err();
    assert_eq!(err.kind, ErrorKind::UnalignedPaddr(0xabc));
    assert_eq!(err.message(), "Elf64_Phdr: unaligned p_paddr value: 0xabc");
}

#[test]
fn virtual_address_is_checked_before_physical() {
    let ph = Ph { type_: PT_LOAD, offset: 0, vaddr: 3, paddr: 5, filesz: 0, memsz: 0, align: 2 };
    let file = core_file(&required_notes(), &[(ph, vec![])]);
    assert_eq!(kind_of(Core::parse(&file)), ErrorKind::UnalignedVaddr(3));
}

#[test]
fn zero_alignment_asks_for_nothing() {
    let ph = Ph { type_: PT_LOAD, offset: 0x400, vaddr: 0x1001, paddr: 0x33, filesz: 4, memsz: 4, align: 0 };
    let file = core_file(&required_notes(), &[(ph, vec![1, 2, 3, 4])]);
    let core = Core::parse(&file).unwrap();
    assert_eq!(core.segments.len(), 1);
    assert_eq!(core.segments[0].vm_start, 0x1001);
    assert_eq!(core.segments[0].vm_end, 0x1005);
    assert_eq!(core.segments[0].data, &[1, 2, 3, 4]);
}

#[test]
fn file_size_must_equal_memory_size() {
    let ph = Ph { type_: PT_LOAD, offset: 0x1000, vaddr: 0x400000, paddr: 0, filesz: 0x1000, memsz: 0x2000, align: 0x1000 };
    let file = core_file(&required_notes(), &[(ph, vec![0; 0x1000])]);
    let err = Core::parse(&file).unwrap_err();
    assert_eq!(err.kind, ErrorKind::SizeMismatch { file_size: 0x1000, memory_size: 0x2000 });
    assert_eq!(err.message(), "segment file size (0x1000) differs from memory size (0x2000)");
}

#[test]
fn missing_process_note_is_rejected() {
    let notes = note(b"CORE", NT_FILE, &file_note(0, 0x1000, &[], b""));
    let err = Core::parse(&core_file(&notes, &[])).unwrap_err();
    assert_eq!(err.kind, ErrorKind::MissingNote(RequiredNote::Prpsinfo));
    assert_eq!(err.message(), "missing note: CORE/NT_PRPSINFO");
}

#[test]
fn missing_file_note_is_rejected() {
    let notes = note(b"CORE", NT_PRPSINFO, &prpsinfo(b"init", b"init"));
    let err = Core::parse(&core_file(&notes, &[])).unwrap_err();
    assert_eq!(err.kind, ErrorKind::MissingNote(RequiredNote::File));
    assert_eq!(err.message(), "missing note: CORE/NT_FILE");
}

#[test]
fn notes_of_another_owner_do_not_count() {
    let mut notes = note(b"LINUX", NT_PRPSINFO, &prpsinfo(b"init", b"init"));
    notes.extend(note(b"CORE", NT_FILE, &file_note(0, 0x1000, &[], b"")));
    assert_eq!(
        kind_of(Core::parse(&core_file(&notes, &[]))),
        ErrorKind::MissingNote(RequiredNote::Prpsinfo)
    );
}

#[test]
fn too_few_paths_are_rejected() {
    let entries = [(0x1000, 0x2000, 0), (0x2000, 0x3000, 1), (0x3000, 0x4000, 2)];
    let mut notes = note(b"CORE", NT_PRPSINFO, &prpsinfo(b"init", b"init"));
    notes.extend(note(b"CORE", NT_FILE, &file_note(3, 0x1000, &entries, b"a\0b\0")));
    let err = Core::parse(&core_file(&notes, &[])).unwrap_err();
    assert_eq!(err.kind, ErrorKind::TooFewPaths);
    assert_eq!(err.message(), "NT_FILE note contains too few paths");
}

#[test]
fn dump_without_program_headers_lacks_its_process() {
    let file = ehdr(64, 0);
    assert_eq!(kind_of(Core::parse(&file)), ErrorKind::MissingNote(RequiredNote::Prpsinfo));
    let elf = Elf::parse(&file).unwrap();
    assert!(elf.iter_program_headers(PT_LOAD).is_empty());
    assert!(elf.iter_program_headers(PT_NOTE).is_empty());
    assert_eq!(elf.get_note(b"CORE", NT_PRPSINFO), None);
}

#[test]
fn empty_dump() {
    let file = core_file(&required_notes(), &[]);
    let core = Core::parse(&file).unwrap();
    assert!(core.segments.is_empty());
    assert!(core.threads.is_empty());
    assert!(core.file_map.is_empty());
    assert_eq!(core.process.file_name, b"init");
}

#[test]
fn single_segment() {
    let bytes: Vec<u8> = (0..0x1000u32).map(|i| (i % 251) as u8).collect();
    let file = core_file(&required_notes(), &[(load(0x1000, 0x400000, 0x1000), bytes.clone())]);
    let core = Core::parse(&file).unwrap();
    assert_eq!(core.segments.len(), 1);
    assert_eq!(core.segments[0].vm_start, 0x400000);
    assert_eq!(core.segments[0].vm_end, 0x401000);
    assert_eq!(core.segments[0].data.len(), 0x1000);
    assert_eq!(core.segments[0].data, &bytes[..]);
    assert_eq!(core.threads.len(), 0);
    assert_eq!(core.file_map.len(), 0);
}

#[test]
fn two_threads() {
    let mut notes = note(b"CORE", NT_PRPSINFO, &prpsinfo(b"init", b"init"));
    notes.extend(note(b"CORE", NT_PRSTATUS, &prstatus(100, &regs_with_ip(0xaa))));
    notes.extend(note(b"CORE", NT_PRSTATUS, &prstatus(101, &regs_with_ip(0xbb))));
    notes.extend(note(b"CORE", NT_FILE, &file_note(0, 0x1000, &[], b"")));
    let file = core_file(&notes, &[]);
    let core = Core::parse(&file).unwrap();
    assert_eq!(core.threads.len(), 2);
    assert_eq!(core.threads[0].pid, 100);
    assert_eq!(core.threads[0].registers.rip, 0xaa);
    assert_eq!(core.threads[1].pid, 101);
    assert_eq!(core.threads[1].registers.rip, 0xbb);
}

#[test]
fn file_map() {
    let entries = [(0x1000, 0x2000, 3), (0x2000, 0x3000, 5)];
    let mut notes = note(b"CORE", NT_PRPSINFO, &prpsinfo(b"init", b"init"));
    notes.extend(note(b"CORE", NT_FILE, &file_note(2, 0x1000, &entries, b"a\0b\0")));
    let file = core_file(&notes, &[]);
    let core = Core::parse(&file).unwrap();
    assert_eq!(
        core.file_map,
        vec![
            FileMapping { vm_start: 0x1000, vm_end: 0x2000, file_offset: 0x3000, file_path: b"a" },
            FileMapping { vm_start: 0x2000, vm_end: 0x3000, file_offset: 0x5000, file_path: b"b" },
        ]
    );
}

#[test]
fn register_mapping() {
    let mut regs = [0u64; 27];
    for (i, r) in regs.iter_mut().enumerate() {
        *r = i as u64 + 1;
    }
    let mut notes = required_notes();
    notes.extend(note(b"CORE", NT_PRSTATUS, &prstatus(7, &regs)));
    let file = core_file(&notes, &[]);
    let core = Core::parse(&file).unwrap();
    let r = &core.threads[0].registers;
    assert_eq!(r.r15, 1);
    assert_eq!(r.r14, 2);
    assert_eq!(r.r13, 3);
    assert_eq!(r.r12, 4);
    assert_eq!(r.rbp, 5);
    assert_eq!(r.rbx, 6);
    assert_eq!(r.r11, 7);
    assert_eq!(r.r10, 8);
    assert_eq!(r.r9, 9);
    assert_eq!(r.r8, 10);
    assert_eq!(r.rax, 11);
    assert_eq!(r.rcx, 12);
    assert_eq!(r.rdx, 13);
    assert_eq!(r.rsi, 14);
    assert_eq!(r.rdi, 15);
    assert_eq!(r.rip, 17);
    assert_eq!(r.cs, 18);
    assert_eq!(r.rflags, 19);
    assert_eq!(r.rsp, 20);
    assert_eq!(r.ss, 21);
    assert_eq!(r.fs_base, 22);
    assert_eq!(r.gs_base, 23);
    assert_eq!(r.ds, 24);
    assert_eq!(r.es, 25);
    assert_eq!(r.fs, 26);
    assert_eq!(r.gs, 27);
}

#[test]
fn process_names_are_trimmed() {
    let mut notes = note(b"CORE", NT_PRPSINFO, &prpsinfo(b"init\0\0\0\0\0\0\0\0\0\0\0\0", b"/sbin/init\0splash"));
    notes.extend(note(b"CORE", NT_FILE, &file_note(0, 0x1000, &[], b"")));
    let file = core_file(&notes, &[]);
    let core = Core::parse(&file).unwrap();
    assert_eq!(core.process.file_name, b"init");
    assert_eq!(core.process.command, b"/sbin/init");
}

#[test]
fn process_fields_are_decoded() {
    let file = core_file(&required_notes(), &[]);
    let core = Core::parse(&file).unwrap();
    let p = &core.process;
    assert_eq!(p.state, -1);
    assert_eq!(p.state_name, 'R');
    assert!(p.zombie);
    assert_eq!(p.nice, -10);
    assert_eq!(p.flags, 0x0040_0600);
    assert_eq!(p.uid, 1000);
    assert_eq!(p.gid, 1001);
    assert_eq!(p.pid, 4242);
    assert_eq!(p.ppid, 1);
    assert_eq!(p.pgrp, -7);
    assert_eq!(p.sid, 4200);
    assert_eq!(p.file_name, b"init");
    assert_eq!(p.command, b"/sbin/init --quiet");
}

#[test]
fn zombie_only_when_the_byte_is_one() {
    for (byte, zombie) in [(0u8, false), (1, true), (2, false), (0xff, false)] {
        let mut info = prpsinfo(b"init", b"init");
        info[2] = byte;
        let mut notes = note(b"CORE", NT_PRPSINFO, &info);
        notes.extend(note(b"CORE", NT_FILE, &file_note(0, 0x1000, &[], b"")));
        let file = core_file(&notes, &[]);
        let core = Core::parse(&file).unwrap();
        assert_eq!(core.process.zombie, zombie);
    }
}

#[test]
fn names_that_fill_their_field_are_kept_whole() {
    let fname = [b'x'; 16];
    let psargs = [b'y'; 80];
    let mut notes = note(b"CORE", NT_PRPSINFO, &prpsinfo(&fname, &psargs));
    notes.extend(note(b"CORE", NT_FILE, &file_note(0, 0x1000, &[], b"")));
    let file = core_file(&notes, &[]);
    let core = Core::parse(&file).unwrap();
    assert_eq!(core.process.file_name, &fname[..]);
    assert_eq!(core.process.command, &psargs[..]);
}

#[test]
fn segments_end_where_their_bytes_end() {
    let loads = vec![
        (load(0x1000, 0x400000, 0x300), vec![1; 0x300]),
        (load(0x2000, 0x7fff_0000_0000, 0x10), vec![2; 0x10]),
        (load(0x3000, 0, 0), vec![]),
    ];
    let file = core_file(&required_notes(), &loads);
    let core = Core::parse(&file).unwrap();
    assert_eq!(core.segments.len(), 3);
    for s in &core.segments {
        assert_eq!(s.vm_end, s.vm_start + s.data.len() as u64);
    }
    assert_eq!(core.segments[1].vm_start, 0x7fff_0000_0000);
    assert_eq!(core.segments[1].vm_end, 0x7fff_0000_0010);
}

#[test]
fn segments_borrow_from_the_file() {
    let loads = vec![
        (load(0x1000, 0x400000, 0x300), vec![1; 0x300]),
        (load(0x2000, 0x500000, 0x10), vec![2; 0x10]),
    ];
    let file = core_file(&required_notes(), &loads);
    let core = Core::parse(&file).unwrap();
    assert!(std::ptr::eq(core.segments[0].data, &file[0x1000..0x1300]));
    assert!(std::ptr::eq(core.segments[1].data, &file[0x2000..0x2010]));
}

#[test]
fn segments_keep_table_order() {
    let loads = vec![
        (load(0x3000, 0x900000, 0x10), vec![9; 0x10]),
        (load(0x1000, 0x100000, 0x10), vec![1; 0x10]),
        (load(0x2000, 0x500000, 0x10), vec![5; 0x10]),
    ];
    let core_bytes = core_file(&required_notes(), &loads);
    let core = Core::parse(&core_bytes).unwrap();
    let starts: Vec<u64> = core.segments.iter().map(|s| s.vm_start).collect();
    assert_eq!(starts, vec![0x900000, 0x100000, 0x500000]);
    assert_eq!(core.segments[0].data, &[9; 0x10]);
}

#[test]
fn process_names_hold_no_nul() {
    let mut notes = note(b"CORE", NT_PRPSINFO, &prpsinfo(b"a\0b\0c", b"\0hidden"));
    notes.extend(note(b"CORE", NT_FILE, &file_note(0, 0x1000, &[], b"")));
    let file = core_file(&notes, &[]);
    let core = Core::parse(&file).unwrap();
    assert_eq!(core.process.file_name, b"a");
    assert_eq!(core.process.command, b"");
    assert!(!core.process.file_name.contains(&0));
    assert!(!core.process.command.contains(&0));
}

#[test]
fn threads_follow_their_notes() {
    let mut notes = Vec::new();
    notes.extend(note(b"CORE", NT_PRSTATUS, &prstatus(5, &regs_with_ip(50))));
    notes.extend(note(b"CORE", NT_PRPSINFO, &prpsinfo(b"init", b"init")));
    notes.extend(note(b"OTHER", NT_PRSTATUS, &prstatus(6, &regs_with_ip(60))));
    notes.extend(note(b"CORE", NT_PRSTATUS, &prstatus(-3, &regs_with_ip(30))));
    notes.extend(note(b"CORE", NT_FILE, &file_note(0, 0x1000, &[], b"")));
    notes.extend(note(b"CORE", NT_PRSTATUS, &prstatus(4, &regs_with_ip(40))));
    let file = core_file(&notes, &[]);
    let core = Core::parse(&file).unwrap();
    let seen: Vec<(i32, u64)> = core.threads.iter().map(|t| (t.pid, t.registers.rip)).collect();
    assert_eq!(seen, vec![(5, 50), (-3, 30), (4, 40)]);
}

#[test]
fn threads_of_several_note_segments() {
    let first = {
        let mut n = note(b"CORE", NT_PRSTATUS, &prstatus(1, &regs_with_ip(1)));
        n.extend(note(b"CORE", NT_PRPSINFO, &prpsinfo(b"init", b"init")));
        n
    };
    let second = {
        let mut n = note(b"CORE", NT_FILE, &file_note(0, 0x1000, &[], b""));
        n.extend(note(b"CORE", NT_PRSTATUS, &prstatus(2, &regs_with_ip(2))));
        n
    };
    let at = 64 + 3 * 56;
    let mut file = ehdr(64, 3);
    file.extend(phdr(&Ph { type_: PT_NOTE, offset: at as u64, vaddr: 0, paddr: 0, filesz: first.len() as u64, memsz: 0, align: 0 }));
    file.extend(phdr(&Ph { type_: 0x6474_e551, offset: 0, vaddr: 0, paddr: 0, filesz: 1 << 40, memsz: 0, align: 0 }));
    file.extend(phdr(&Ph { type_: PT_NOTE, offset: (at + first.len()) as u64, vaddr: 0, paddr: 0, filesz: second.len() as u64, memsz: 0, align: 0 }));
    file.extend_from_slice(&first);
    file.extend_from_slice(&second);
    let core = Core::parse(&file).unwrap();
    let pids: Vec<i32> = core.threads.iter().map(|t| t.pid).collect();
    assert_eq!(pids, vec![1, 2]);
}

#[test]
fn file_offsets_are_page_multiples() {
    let entries = [(0, 1, 0), (1, 2, 7), (2, 3, 0xffff), (3, 4, 1)];
    let mut notes = note(b"CORE", NT_PRPSINFO, &prpsinfo(b"init", b"init"));
    notes.extend(note(b"CORE", NT_FILE, &file_note(4, 0x3000, &entries, b"w\0x\0y\0z\0")));
    let file = core_file(&notes, &[]);
    let core = Core::parse(&file).unwrap();
    let offsets: Vec<u64> = core.file_map.iter().map(|m| m.file_offset).collect();
    assert_eq!(offsets, vec![0, 0x15000, 0x2_fffd_000, 0x3000]);
    for m in &core.file_map {
        assert_eq!(m.file_offset % 0x3000, 0);
    }
}

#[test]
fn zero_page_size_gives_zero_offsets() {
    let entries = [(0, 1, 9)];
    let mut notes = note(b"CORE", NT_PRPSINFO, &prpsinfo(b"init", b"init"));
    notes.extend(note(b"CORE", NT_FILE, &file_note(1, 0, &entries, b"p\0")));
    let file = core_file(&notes, &[]);
    let core = Core::parse(&file).unwrap();
    assert_eq!(core.file_map[0].file_offset, 0);
}

#[test]
fn parsing_twice_gives_equal_results() {
    let entries = [(0x1000, 0x2000, 3)];
    let mut notes = note(b"CORE", NT_PRPSINFO, &prpsinfo(b"init", b"init"));
    notes.extend(note(b"CORE", NT_PRSTATUS, &prstatus(100, &regs_with_ip(0xaa))));
    notes.extend(note(b"CORE", NT_FILE, &file_note(1, 0x1000, &entries, b"/bin/true\0")));
    let file = core_file(&notes, &[(load(0x1000, 0x400000, 0x20), vec![7; 0x20])]);
    let copy = file.clone();
    assert_eq!(Core::parse(&file).unwrap(), Core::parse(&copy).unwrap());
    assert_eq!(Core::parse(&file).unwrap(), Core::parse(&file).unwrap());
    let broken = &file[..file.len() - 1];
    assert_eq!(Core::parse(broken).unwrap_err(), Core::parse(&copy[..copy.len() - 1]).unwrap_err());
}

#[test]
fn last_path_needs_no_nul() {
    let entries = [(0x1000, 0x2000, 3), (0x2000, 0x3000, 5)];
    let mut notes = note(b"CORE", NT_PRPSINFO, &prpsinfo(b"init", b"init"));
    notes.extend(note(b"CORE", NT_FILE, &file_note(2, 0x1000, &entries, b"/lib/a\0/lib/b")));
    let file = core_file(&notes, &[]);
    let core = Core::parse(&file).unwrap();
    assert_eq!(core.file_map[0].file_path, b"/lib/a");
    assert_eq!(core.file_map[1].file_path, b"/lib/b");
}

#[test]
fn surplus_bytes_behind_the_paths_are_ignored() {
    let entries = [(0x1000, 0x2000, 3)];
    let mut notes = note(b"CORE", NT_PRPSINFO, &prpsinfo(b"init", b"init"));
    notes.extend(note(b"CORE", NT_FILE, &file_note(1, 0x1000, &entries, b"/lib/a\0more\0and more")));
    let file = core_file(&notes, &[]);
    let core = Core::parse(&file).unwrap();
    assert_eq!(core.file_map.len(), 1);
    assert_eq!(core.file_map[0].file_path, b"/lib/a");
}

#[test]
fn empty_paths_are_paths() {
    let entries = [(1, 2, 0), (3, 4, 0)];
    let mut notes = note(b"CORE", NT_PRPSINFO, &prpsinfo(b"init", b"init"));
    notes.extend(note(b"CORE", NT_FILE, &file_note(2, 0x1000, &entries, b"\0\0")));
    let file = core_file(&notes, &[]);
    let core = Core::parse(&file).unwrap();
    assert_eq!(core.file_map[0].file_path, b"");
    assert_eq!(core.file_map[1].file_path, b"");
}

#[test]
fn no_path_block_for_one_entry_is_too_few() {
    let entries = [(1, 2, 0)];
    let mut notes = note(b"CORE", NT_PRPSINFO, &prpsinfo(b"init", b"init"));
    notes.extend(note(b"CORE", NT_FILE, &file_note(1, 0x1000, &entries, b"")));
    assert_eq!(kind_of(Core::parse(&core_file(&notes, &[]))), ErrorKind::TooFewPaths);
}

#[test]
fn truncated_file_map_is_rejected() {
    let entries = [(1, 2, 0), (3, 4, 0)];
    let whole = file_note(2, 0x1000, &entries, b"");
    for len in [0, 7, 8, 15, 16, 39, 40, 63] {
        let mut notes = note(b"CORE", NT_PRPSINFO, &prpsinfo(b"init", b"init"));
        notes.extend(note(b"CORE", NT_FILE, &whole[..len]));
        let err = Core::parse(&core_file(&notes, &[])).unwrap_err();
        assert_eq!(err.kind, ErrorKind::FileMapTruncated);
        assert_eq!(err.message(), "NT_FILE note: not enough data");
    }
}

#[test]
fn huge_entry_count_is_a_truncated_file_map() {
    let mut notes = note(b"CORE", NT_PRPSINFO, &prpsinfo(b"init", b"init"));
    notes.extend(note(b"CORE", NT_FILE, &file_note(u64::MAX, 0x1000, &[(1, 2, 3)], b"a\0")));
    assert_eq!(kind_of(Core::parse(&core_file(&notes, &[]))), ErrorKind::FileMapTruncated);
}

#[test]
fn file_offset_that_does_not_fit_is_rejected() {
    let entries = [(1, 2, 1), (3, 4, 1 << 52)];
    let mut notes = note(b"CORE", NT_PRPSINFO, &prpsinfo(b"init", b"init"));
    notes.extend(note(b"CORE", NT_FILE, &file_note(2, 0x1000, &entries, b"a\0b\0")));
    let err = Core::parse(&core_file(&notes, &[])).unwrap_err();
    assert_eq!(err.kind, ErrorKind::FileOffsetOverflow { page_index: 1 << 52, page_size: 0x1000 });
    assert_eq!(
        err.message(),
        "NT_FILE note: page 0x10000000000000 of size 0x1000 lies above the 64-bit file offsets"
    );
}

#[test]
fn largest_file_offset_that_fits_is_kept() {
    let entries = [(1, 2, u64::MAX / 5)];
    let mut notes = note(b"CORE", NT_PRPSINFO, &prpsinfo(b"init", b"init"));
    notes.extend(note(b"CORE", NT_FILE, &file_note(1, 5, &entries, b"a\0")));
    let file = core_file(&notes, &[]);
    let core = Core::parse(&file).unwrap();
    assert_eq!(core.file_map[0].file_offset, u64::MAX);
}

#[test]
fn segment_that_ends_above_the_address_space_is_rejected() {
    let ph = Ph { type_: PT_LOAD, offset: 0x1000, vaddr: u64::MAX - 0xf, paddr: 0, filesz: 0x10, memsz: 0x10, align: 0 };
    let file = core_file(&required_notes(), &[(ph, vec![0; 0x10])]);
    let err = Core::parse(&file).unwrap_err();
    assert_eq!(
        err.kind,
        ErrorKind::SegmentEndOverflow { vm_start: u64::MAX - 0xf, memory_size: 0x10 }
    );
    assert_eq!(
        err.message(),
        "segment at 0xfffffffffffffff0 of size 0x10 ends above the address space"
    );
}

#[test]
fn segment_that_ends_with_the_address_space_is_kept() {
    let ph = Ph { type_: PT_LOAD, offset: 0x1000, vaddr: u64::MAX - 0x10, paddr: 0, filesz: 0x10, memsz: 0x10, align: 0 };
    let file = core_file(&required_notes(), &[(ph, vec![0; 0x10])]);
    let core = Core::parse(&file).unwrap();
    assert_eq!(core.segments[0].vm_end, u64::MAX);
}

#[test]
fn segment_outside_the_file_is_rejected() {
    let ph = load(0x1000, 0x400000, 0x20);
    let mut file = core_file(&required_notes(), &[(ph, vec![0; 0x20])]);
    file.pop();
    let err = Core::parse(&file).unwrap_err();
    let header = ProgramHeader {
        type_: PT_LOAD,
        file_offset: 0x1000,
        file_size: 0x20,
        memory_address: 0x400000,
        memory_size: 0x20,
    };
    assert_eq!(err.kind, ErrorKind::InvalidFileRange(header));
    assert_eq!(
        err.message(),
        "program header has invalid file range: ProgramHeader { type_: 1, file_offset: 4096, \
         file_size: 32, memory_address: 4194304, memory_size: 32 }"
    );
    assert_eq!(err.message(), format!("program header has invalid file range: {header:?}"));
}

#[test]
fn segment_range_that_wraps_is_rejected() {
    let ph = Ph { type_: PT_LOAD, offset: 0, vaddr: 0, paddr: 0, filesz: 2, memsz: 2, align: 0 };
    let mut file = core_file(&required_notes(), &[(ph, vec![])]);
    assert!(Core::parse(&file).is_ok());
    let second_header = 64 + 56;
    file[second_header + 8..second_header + 16].copy_from_slice(&u64::MAX.to_le_bytes());
    assert!(matches!(
        kind_of(Core::parse(&file)),
        ErrorKind::InvalidFileRange(h) if h.file_offset == u64::MAX && h.file_size == 2
    ));
}

#[test]
fn note_segment_outside_the_file_is_rejected() {
    let mut file = core_file(&required_notes(), &[]);
    file.pop();
    let err = Elf::parse(&file).unwrap_err();
    assert!(matches!(err.kind, ErrorKind::InvalidFileRange(h) if h.type_ == PT_NOTE));
}

#[test]
fn program_header_table_behind_the_file_is_rejected() {
    let mut file = ehdr(65, 0);
    let err = Core::parse(&file).unwrap_err();
    assert_eq!(err.kind, ErrorKind::TableOutOfBounds { offset: 65 });
    assert_eq!(err.message(), "program header table offset is out of bounds: 0x41");
    file[32..40].copy_from_slice(&u64::MAX.to_le_bytes());
    assert_eq!(
        Core::parse(&file).unwrap_err().message(),
        "program header table offset is out of bounds: 0xffffffffffffffff"
    );
}

#[test]
fn program_header_table_at_the_end_of_the_file_may_be_empty() {
    let file = ehdr(64, 0);
    assert!(Elf::parse(&file).is_ok());
}

#[test]
fn truncated_program_header_table_is_rejected() {
    let file = core_file(&required_notes(), &[]);
    for len in [64, 65, 119] {
        let err = Core::parse(&file[..len]).unwrap_err();
        assert_eq!(err.kind, ErrorKind::NotEnoughData(Record::Elf64Phdr));
        assert_eq!(err.message(), "Elf64_Phdr: not enough data");
    }
}

#[test]
fn table_length_is_checked_before_alignment() {
    let bad = Ph { type_: PT_LOAD, offset: 0, vaddr: 1, paddr: 0, filesz: 0, memsz: 0, align: 2 };
    let mut file = ehdr(64, 2);
    file.extend(phdr(&bad));
    assert_eq!(kind_of(Core::parse(&file)), ErrorKind::NotEnoughData(Record::Elf64Phdr));
    file.extend(phdr(&bad));
    assert_eq!(kind_of(Core::parse(&file)), ErrorKind::UnalignedVaddr(1));
}

#[test]
fn truncated_note_header_is_rejected() {
    let mut notes = required_notes();
    notes.extend_from_slice(&[5, 0, 0, 0, 0, 0]);
    let err = Core::parse(&core_file(&notes, &[])).unwrap_err();
    assert_eq!(err.kind, ErrorKind::NotEnoughData(Record::Elf64Nhdr));
    assert_eq!(err.message(), "Elf64_Nhdr: not enough data");
}

#[test]
fn truncated_note_body_is_rejected() {
    let whole = note(b"CORE", NT_PRSTATUS, &[1, 2, 3, 4, 5]);
    assert_eq!(whole.len(), 12 + 8 + 8);
    for len in 12..whole.len() {
        let mut notes = required_notes();
        notes.extend_from_slice(&whole[..len]);
        let err = Elf::parse(&core_file(&notes, &[])).unwrap_err();
        assert_eq!(err.kind, ErrorKind::NoteTruncated);
        assert_eq!(err.message(), "note: not enough data");
    }
}

#[test]
fn truncated_process_description_is_rejected() {
    let mut notes = note(b"CORE", NT_PRPSINFO, &prpsinfo(b"init", b"init")[..135]);
    notes.extend(note(b"CORE", NT_FILE, &file_note(0, 0x1000, &[], b"")));
    let err = Core::parse(&core_file(&notes, &[])).unwrap_err();
    assert_eq!(err.kind, ErrorKind::NotEnoughData(Record::ElfPrpsinfo));
    assert_eq!(err.message(), "elf_prpsinfo: not enough data");
}

#[test]
fn truncated_thread_status_is_rejected() {
    let mut notes = required_notes();
    notes.extend(note(b"CORE", NT_PRSTATUS, &prstatus(1, &regs_with_ip(1))[..331]));
    let err = Core::parse(&core_file(&notes, &[])).unwrap_err();
    assert_eq!(err.kind, ErrorKind::NotEnoughData(Record::ElfPrstatus));
    assert_eq!(err.message(), "elf_prstatus: not enough data");
}

#[test]
fn thread_status_without_its_padding_is_accepted() {
    let mut notes = required_notes();
    notes.extend(note(b"CORE", NT_PRSTATUS, &prstatus(9, &regs_with_ip(1))[..332]));
    let file = core_file(&notes, &[]);
    let core = Core::parse(&file).unwrap();
    assert_eq!(core.threads[0].pid, 9);
}

#[test]
fn first_failure_decides() {
    let bad_load = Ph { type_: PT_LOAD, offset: 0x1000, vaddr: 0, paddr: 0, filesz: 1, memsz: 2, align: 0 };
    let notes = note(b"CORE", NT_PRSTATUS, &[0; 4]);
    let file = core_file(&notes, &[(bad_load, vec![0])]);
    assert_eq!(
        kind_of(Core::parse(&file)),
        ErrorKind::SizeMismatch { file_size: 1, memory_size: 2 }
    );
    let file = core_file(&notes, &[]);
    assert_eq!(kind_of(Core::parse(&file)), ErrorKind::MissingNote(RequiredNote::Prpsinfo));
    let mut notes = note(b"CORE", NT_PRPSINFO, &prpsinfo(b"init", b"init"));
    notes.extend(note(b"CORE", NT_PRSTATUS, &[0; 4]));
    let file = core_file(&notes, &[]);
    assert_eq!(kind_of(Core::parse(&file)), ErrorKind::NotEnoughData(Record::ElfPrstatus));
}

#[test]
fn container_lists_headers_by_type() {
    let loads = vec![
        (load(0x1000, 0x400000, 0x10), vec![1; 0x10]),
        (load(0x2000, 0x500000, 0x20), vec![2; 0x20]),
    ];
    let file = core_file(&required_notes(), &loads);
    let elf = Elf::parse(&file).unwrap();
    let found = elf.iter_program_headers(PT_LOAD);
    assert_eq!(found.len(), 2);
    assert_eq!(
        *found[0],
        ProgramHeader { type_: 1, file_offset: 0x1000, file_size: 0x10, memory_address: 0x400000, memory_size: 0x10 }
    );
    assert_eq!(found[1].memory_address, 0x500000);
    let notes = elf.iter_program_headers(PT_NOTE);
    assert_eq!(notes.len(), 1);
    assert_eq!(notes[0].file_offset, 64 + 3 * 56);
    assert!(elf.iter_program_headers(2).is_empty());
    assert_eq!(elf.read_segment(found[1]).unwrap(), &[2; 0x20]);
    let outside = ProgramHeader { type_: 1, file_offset: file.len() as u64, file_size: 1, memory_address: 0, memory_size: 1 };
    assert_eq!(elf.read_segment(&outside).unwrap_err().kind, ErrorKind::InvalidFileRange(outside));
    let empty = ProgramHeader { type_: 1, file_offset: file.len() as u64, file_size: 0, memory_address: 0, memory_size: 0 };
    assert_eq!(elf.read_segment(&empty).unwrap(), &[] as &[u8]);
}

#[test]
fn container_finds_notes_by_owner_and_type() {
    let mut notes = note(b"CORE", 7, b"first");
    notes.extend(note(b"GNU", 7, b"other owner"));
    notes.extend(note(b"CORE", 8, b"other type"));
    notes.extend(note(b"CORE", 7, b"second"));
    notes.extend(note(b"CORE", 7, b""));
    let file = core_file(&notes, &[]);
    let elf = Elf::parse(&file).unwrap();
    assert_eq!(elf.iter_notes(b"CORE", 7), vec![&b"first"[..], &b"second"[..], &b""[..]]);
    assert_eq!(elf.get_note(b"CORE", 7), Some(&b"first"[..]));
    assert_eq!(elf.get_note(b"GNU", 7), Some(&b"other owner"[..]));
    assert_eq!(elf.get_note(b"CORE", 8), Some(&b"other type"[..]));
    assert_eq!(elf.get_note(b"CORE", 9), None);
    assert_eq!(elf.get_note(b"COR", 7), None);
    assert!(elf.iter_notes(b"core", 7).is_empty());
}

#[test]
fn note_names_end_at_their_first_nul() {
    let mut raw = Vec::new();
    raw.extend_from_slice(&8u32.to_le_bytes());
    raw.extend_from_slice(&3u32.to_le_bytes());
    raw.extend_from_slice(&5u32.to_le_bytes());
    raw.extend_from_slice(b"AB\0CD\0\0\0");
    raw.extend_from_slice(b"xyz\0");
    let file = core_file(&raw, &[]);
    let elf = Elf::parse(&file).unwrap();
    assert_eq!(elf.get_note(b"AB", 5), Some(&b"xyz"[..]));
    assert_eq!(elf.get_note(b"AB\0CD", 5), None);
}

#[test]
fn note_without_a_name_has_the_empty_name() {
    let mut raw = Vec::new();
    raw.extend_from_slice(&0u32.to_le_bytes());
    raw.extend_from_slice(&2u32.to_le_bytes());
    raw.extend_from_slice(&5u32.to_le_bytes());
    raw.extend_from_slice(b"hi\0\0");
    let file = core_file(&raw, &[]);
    let elf = Elf::parse(&file).unwrap();
    assert_eq!(elf.get_note(b"", 5), Some(&b"hi"[..]));
}

fn within(part: &[u8], whole: &[u8]) -> bool {
    let start = part.as_ptr() as usize;
    let base = whole.as_ptr() as usize;
    base <= start && start + part.len() <= base + whole.len()
}

#[test]
fn everything_borrowed_lies_in_the_file() {
    let entries = [(0x1000, 0x2000, 3), (0x2000, 0x3000, 5)];
    let mut notes = note(b"CORE", NT_PRPSINFO, &prpsinfo(b"cat", b"cat /etc/motd"));
    notes.extend(note(b"CORE", NT_FILE, &file_note(2, 0x1000, &entries, b"/bin/cat\0/lib/libc.so")));
    let file = core_file(&notes, &[(load(0x1000, 0x400000, 0x20), vec![7; 0x20])]);
    let core = Core::parse(&file).unwrap();
    assert!(within(core.segments[0].data, &file));
    assert!(within(core.process.file_name, &file));
    assert!(within(core.process.command, &file));
    assert_eq!(core.process.command, b"cat /etc/motd");
    for m in &core.file_map {
        assert!(within(m.file_path, &file));
        assert!(!m.file_path.is_empty());
    }
    assert_eq!(core.file_map[1].file_path, b"/lib/libc.so");
}
