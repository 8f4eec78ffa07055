//! What holds of every core dump that the decoder accepts.

use crate::ctypes::{ElfPrpsinfo, ElfPrstatus, NT_FILE, NT_PRPSINFO, PRSTATUS_SIZE};
use crate::dump::{
    borrows_lie_in, core_owner, entry_start, file_map_entries, load_headers, segments_by_header,
    spec_decode_file_map, spec_next_path, spec_parse, spec_paths, spec_segment, spec_segments,
    spec_thread, spec_threads, thread_notes, threads_by_note, Core, SegmentView, ThreadInfo,
};
use crate::elf::{
    lemma_elf_lies_in_file, lemma_get_note_is_a_note, spec_get_note, spec_parse_elf,
    ProgramHeader,
};
use crate::error::{collect, lemma_collect_ok, ParseError};
use crate::read::{le_u64, lemma_le_u64_skip};
use crate::util::{
    c_string, lemma_c_string_has_no_nul, lemma_c_string_lies_in, lemma_lies_in_trans,
    lemma_nul_index, lemma_range_lies_in, lies_at, lies_in, nul_index,
};
use vstd::arithmetic::div_mod::lemma_mod_multiples_basic;
use vstd::prelude::*;

verus! {

/// The loadable segments of the file `data`, in table order.
pub open spec fn segment_headers(data: Seq<u8>) -> Seq<ProgramHeader> {
    load_headers(spec_parse_elf(data)->Ok_0)
}

/// Every memory segment of a core dump ends where its bytes end, and its
/// bytes are those of the file range of its loadable segment: segment `i`
/// belongs to the `i`-th loadable segment of the program header table.
pub proof fn lemma_segments_lie_in_file(data: Seq<u8>)
    requires
        spec_parse(data) is Ok,
    ensures
        spec_parse(data)->Ok_0.segments.len() == segment_headers(data).len(),
        forall|i: int|
            #![trigger spec_parse(data)->Ok_0.segments[i]]
            0 <= i < segment_headers(data).len() ==> {
                let segment = spec_parse(data)->Ok_0.segments[i];
                let header = segment_headers(data)[i];
                &&& segment.vm_start == header.memory_address
                &&& segment.vm_end == segment.vm_start + segment.data.len()
                &&& segment.data.len() == header.file_size
                &&& lies_at(segment.data, data, header.file_offset as int)
            },
{
    let elf = spec_parse_elf(data)->Ok_0;
    let segments = spec_parse(data)->Ok_0.segments;
    let by_header = segments_by_header(elf);
    lemma_elf_lies_in_file(data);
    lemma_collect_ok(by_header);
    assert(segments == spec_segments(elf)->Ok_0);
    assert forall|i: int| 0 <= i < segment_headers(data).len() implies {
        let segment = #[trigger] segments[i];
        let header = segment_headers(data)[i];
        &&& segment.vm_start == header.memory_address
        &&& segment.vm_end == segment.vm_start + segment.data.len()
        &&& segment.data.len() == header.file_size
        &&& lies_at(segment.data, data, header.file_offset as int)
    } by {
        assert(by_header[i] == Ok::<SegmentView, ParseError>(segments[i]));
        assert(by_header[i] == spec_segment(load_headers(elf)[i], elf.data));
    }
}

/// Neither name of the process of a core dump holds a NUL byte.
pub proof fn lemma_names_hold_no_nul(data: Seq<u8>)
    requires
        spec_parse(data) is Ok,
    ensures
        !spec_parse(data)->Ok_0.process.file_name.contains(0u8),
        !spec_parse(data)->Ok_0.process.command.contains(0u8),
{
    let elf = spec_parse_elf(data)->Ok_0;
    let desc = spec_get_note(elf.notes, core_owner(), NT_PRPSINFO)->Some_0;
    let prpsinfo = ElfPrpsinfo::spec_parse(desc)->Ok_0;
    lemma_c_string_has_no_nul(prpsinfo.pr_fname);
    lemma_c_string_has_no_nul(prpsinfo.pr_psargs);
}

/// The threads of a core dump are those of the `NT_PRSTATUS` notes of the
/// file, one for one and in the order of the notes: thread `i` is decoded
/// from the `i`-th such note.
pub proof fn lemma_threads_follow_notes(data: Seq<u8>)
    requires
        spec_parse(data) is Ok,
    ensures
        spec_parse(data)->Ok_0.threads.len() == thread_notes(spec_parse_elf(data)->Ok_0).len(),
        forall|i: int|
            #![trigger thread_notes(spec_parse_elf(data)->Ok_0)[i]]
            0 <= i < spec_parse(data)->Ok_0.threads.len() ==> {
                let desc = thread_notes(spec_parse_elf(data)->Ok_0)[i];
                &&& desc.len() >= PRSTATUS_SIZE
                &&& spec_parse(data)->Ok_0.threads[i] == ThreadInfo::of(ElfPrstatus::at(desc))
            },
{
    let elf = spec_parse_elf(data)->Ok_0;
    let threads = spec_parse(data)->Ok_0.threads;
    let by_note = threads_by_note(elf);
    lemma_collect_ok(by_note);
    assert(threads == spec_threads(elf)->Ok_0);
    assert forall|i: int| 0 <= i < threads.len() implies {
        let desc = #[trigger] thread_notes(elf)[i];
        &&& desc.len() >= PRSTATUS_SIZE
        &&& threads[i] == ThreadInfo::of(ElfPrstatus::at(desc))
    } by {
        assert(by_note[i] == Ok::<ThreadInfo, ParseError>(threads[i]));
        assert(by_note[i] == spec_thread(thread_notes(elf)[i]));
        assert(ElfPrstatus::spec_parse(thread_notes(elf)[i]) is Ok);
    }
}

/// The file map of the file `data`: the description of its `NT_FILE` note.
pub open spec fn file_map_note(data: Seq<u8>) -> Seq<u8> {
    spec_get_note(spec_parse_elf(data)->Ok_0.notes, core_owner(), NT_FILE)->Some_0
}

/// The file offset of every mapping of a core dump is the page index of
/// its entry times the page size of the file map, and so a multiple of the
/// page size.
pub proof fn lemma_file_offsets_are_page_multiples(data: Seq<u8>)
    requires
        spec_parse(data) is Ok,
    ensures
        spec_parse(data)->Ok_0.file_map.len() == le_u64(file_map_note(data), 0),
        forall|i: int|
            #![trigger spec_parse(data)->Ok_0.file_map[i]]
            0 <= i < spec_parse(data)->Ok_0.file_map.len() ==> {
                let desc = file_map_note(data);
                let page_size = le_u64(desc, 8);
                let offset = spec_parse(data)->Ok_0.file_map[i].file_offset;
                &&& offset == le_u64(desc, entry_start(i) + 16) * page_size
                &&& page_size != 0 ==> offset % page_size == 0
            },
{
    let core = spec_parse(data)->Ok_0;
    let desc = file_map_note(data);
    let page_size = le_u64(desc, 8);
    let by_entry = file_map_entries(desc);
    lemma_collect_ok(by_entry);
    assert forall|i: int| 0 <= i < core.file_map.len() implies {
        let offset = (#[trigger] core.file_map[i]).file_offset;
        &&& offset == le_u64(desc, entry_start(i) + 16) * page_size
        &&& page_size != 0 ==> offset % page_size == 0
    } by {
        assert(by_entry[i] is Ok);
        lemma_le_u64_skip(desc, entry_start(i) + 16);
        let bytes = desc.skip(entry_start(i));
        assert(le_u64(bytes, 16) == le_u64(desc, entry_start(i) + 16)) by {
            lemma_le_u64_skip(bytes, 16);
            assert(bytes.skip(16) =~= desc.skip(entry_start(i) + 16));
        }
        let page_index = le_u64(desc, entry_start(i) + 16);
        if page_size != 0 {
            lemma_mod_multiples_basic(page_index as int, page_size as int);
        }
    }
}

/// Decoding depends on the bytes alone: two results of [`Core::parse`] on
/// buffers that hold the same bytes hold the same.
pub proof fn lemma_parse_is_a_function<'a, 'b>(
    first: &'a [u8],
    second: &'b [u8],
    r1: Result<Core<'a>, ParseError>,
    r2: Result<Core<'b>, ParseError>,
)
    requires
        first@ == second@,
        Core::outcome(r1) == spec_parse(first@),
        Core::outcome(r2) == spec_parse(second@),
    ensures
        Core::outcome(r1) == Core::outcome(r2),
{
}

/// The first path of a block of paths, and what follows it, are byte ranges
/// of the block.
pub proof fn lemma_next_path_lies_in(block: Seq<u8>)
    requires
        spec_next_path(block) is Some,
    ensures
        lies_in(spec_next_path(block)->Some_0.0, block),
        lies_in(spec_next_path(block)->Some_0.1, block),
{
    let end = block.len() as int;
    lemma_nul_index(block);
    if nul_index(block) < end {
        lemma_c_string_lies_in(block);
        lemma_range_lies_in(block, nul_index(block) + 1, end);
    } else {
        assert(lies_at(block, block, 0)) by {
            assert(block.subrange(0, end) =~= block);
        }
        assert(lies_at(Seq::<u8>::empty(), block, end)) by {
            assert(block.subrange(end, end) =~= Seq::<u8>::empty());
        }
    }
}

/// The first `n` paths of a block of paths are byte ranges of the block.
pub proof fn lemma_paths_lie_in(block: Seq<u8>, n: nat)
    requires
        spec_paths(block, n) is Some,
    ensures
        spec_paths(block, n)->Some_0.len() == n,
        forall|i: int|
            0 <= i < n ==> lies_in(#[trigger] spec_paths(block, n)->Some_0[i], block),
    decreases n,
{
    if n > 0 {
        let (path, rest) = spec_next_path(block)->Some_0;
        let tail = spec_paths(rest, (n - 1) as nat)->Some_0;
        let paths = spec_paths(block, n)->Some_0;
        assert(paths == seq![path] + tail);
        lemma_paths_lie_in(rest, (n - 1) as nat);
        lemma_next_path_lies_in(block);
        assert forall|i: int| 0 <= i < n implies lies_in(#[trigger] paths[i], block) by {
            if i > 0 {
                assert(paths[i] == tail[i - 1]);
                lemma_lies_in_trans(tail[i - 1], rest, block);
            } else {
                assert(paths[0] == path);
            }
        }
    }
}

/// The paths of a file map are byte ranges of the description that holds
/// the file map.
pub proof fn lemma_file_map_lies_in(desc: Seq<u8>)
    requires
        spec_decode_file_map(desc) is Ok,
    ensures
        forall|i: int|
            0 <= i < spec_decode_file_map(desc)->Ok_0.len() ==> lies_in(
                (#[trigger] spec_decode_file_map(desc)->Ok_0[i]).file_path,
                desc,
            ),
{
    let entries = collect(file_map_entries(desc))->Ok_0;
    let by_entry = file_map_entries(desc);
    lemma_collect_ok(by_entry);
    let count = entries.len();
    let from = entry_start(count as int);
    if count > 0 {
        assert(by_entry[count - 1] is Ok);
    }
    let block = desc.skip(from);
    lemma_paths_lie_in(block, count);
    lemma_range_lies_in(desc, from, desc.len() as int);
    let paths = spec_paths(block, count)->Some_0;
    let mappings = spec_decode_file_map(desc)->Ok_0;
    assert forall|i: int| 0 <= i < mappings.len() implies lies_in(
        (#[trigger] mappings[i]).file_path,
        desc,
    ) by {
        assert(mappings[i].file_path == paths[i]);
        lemma_lies_in_trans(paths[i], block, desc);
    }
}

/// Everything that a core dump borrows lies in the file it was decoded
/// from: the bytes of each segment, both names of the process and the path
/// of each file mapping are byte ranges of the file.
pub proof fn lemma_borrows_lie_in_file(data: Seq<u8>)
    requires
        spec_parse(data) is Ok,
    ensures
        borrows_lie_in(spec_parse(data)->Ok_0, data),
{
    let core = spec_parse(data)->Ok_0;
    let elf = spec_parse_elf(data)->Ok_0;
    lemma_elf_lies_in_file(data);
    lemma_segments_lie_in_file(data);
    assert forall|i: int| 0 <= i < core.segments.len() implies lies_in(
        (#[trigger] core.segments[i]).data,
        data,
    ) by {
        assert(lies_at(core.segments[i].data, data, segment_headers(data)[i].file_offset as int));
    }

    let at = lemma_get_note_is_a_note(elf.notes, core_owner(), NT_PRPSINFO);
    let desc = elf.notes[at].desc;
    let prpsinfo = ElfPrpsinfo::at(desc);
    lemma_range_lies_in(desc, 40, 56);
    lemma_range_lies_in(desc, 56, 136);
    lemma_c_string_lies_in(prpsinfo.pr_fname);
    lemma_c_string_lies_in(prpsinfo.pr_psargs);
    lemma_lies_in_trans(c_string(prpsinfo.pr_fname), prpsinfo.pr_fname, desc);
    lemma_lies_in_trans(c_string(prpsinfo.pr_psargs), prpsinfo.pr_psargs, desc);
    lemma_lies_in_trans(core.process.file_name, desc, data);
    lemma_lies_in_trans(core.process.command, desc, data);

    let at = lemma_get_note_is_a_note(elf.notes, core_owner(), NT_FILE);
    let desc = elf.notes[at].desc;
    lemma_file_map_lies_in(desc);
    assert forall|i: int| 0 <= i < core.file_map.len() implies lies_in(
        (#[trigger] core.file_map[i]).file_path,
        data,
    ) by {
        lemma_lies_in_trans(core.file_map[i].file_path, desc, data);
    }
}

} // verus!
