//! The program loader: the segments of an ELF image, and their placement in
//! the memory of a machine.

use crate::cpu::{Machine, CPU};
use crate::dump::{lemma_rows_read_the_dumped_bytes, word_row, DumpStyle};
use crate::memory::{stored, window_holds, MAGIC_START, MEMSIZE};
use elf::endian::LittleEndian;
use elf::segment::ProgramHeader;
use elf::{ElfBytes, ParseError};
use vstd::prelude::*;

verus! {

/// One entry of the program header table of an image, field by field as the
/// table holds it.
#[derive(Clone, Copy, Debug, PartialEq, Eq)]
pub struct SegmentHeader {
    /// Kind of segment.
    pub p_type: u32,
    /// Offset of the segment's bytes in the image.
    pub p_offset: u64,
    /// Virtual address at which the segment is to be placed.
    pub p_vaddr: u64,
    /// Physical address of the segment.
    pub p_paddr: u64,
    /// Number of bytes of the segment in the image.
    pub p_filesz: u64,
    /// Number of bytes of the segment in memory.
    pub p_memsz: u64,
    /// Access flags.
    pub p_flags: u32,
    /// Alignment of the segment.
    pub p_align: u64,
}

/// A segment to load: its bytes and the virtual address of the first.
#[derive(Clone, Copy, Debug, PartialEq, Eq)]
pub struct Segment<'a> {
    /// Virtual address of the first byte.
    pub vaddr: u64,
    /// The bytes, as the image holds them.
    pub data: &'a [u8],
}

/// A segment as contracts see it.
pub struct SegmentModel {
    /// Virtual address of the first byte.
    pub vaddr: u64,
    /// The bytes.
    pub data: Seq<u8>,
}

impl<'a> View for Segment<'a> {
    type V = SegmentModel;

    open spec fn view(&self) -> SegmentModel {
        SegmentModel { vaddr: self.vaddr, data: self.data@ }
    }
}

impl<'a> DeepView for Segment<'a> {
    type V = SegmentModel;

    open spec fn deep_view(&self) -> SegmentModel {
        self@
    }
}

/// Why an image could not be loaded. Where a segment is at fault, `index` is
/// its place in the program header table.
#[derive(Clone, Copy, Debug, PartialEq, Eq)]
pub enum LoadError {
    /// The image is not a well-formed little-endian ELF file.
    Unparsable,
    /// The image has no program header table.
    NoSegments,
    /// The bytes of a segment lie outside the image.
    Unreadable { index: usize },
    /// The virtual address of a segment does not fit in 32 bits.
    AddressTooLarge { index: usize },
    /// A segment at or above the start of memory reaches past its end.
    OutOfWindow { index: usize },
}

/// Whether the loader copies `segment` into memory: it starts at or above the
/// start of the window. (It must then also end inside it.)
pub open spec fn is_placed(segment: SegmentModel) -> bool {
    MAGIC_START <= segment.vaddr <= u32::MAX
}

/// What is wrong with the segment at `index`, if anything.
pub open spec fn segment_fault(segment: SegmentModel, index: int) -> Option<LoadError> {
    if segment.vaddr > u32::MAX {
        Some(LoadError::AddressTooLarge { index: index as usize })
    } else if segment.vaddr >= MAGIC_START && segment.vaddr - MAGIC_START + segment.data.len()
        > MEMSIZE {
        Some(LoadError::OutOfWindow { index: index as usize })
    } else {
        None
    }
}

/// The fault of the first faulty segment among those from index `from` on.
pub open spec fn first_fault(segments: Seq<SegmentModel>, from: int) -> Option<LoadError>
    decreases segments.len() - from,
{
    if from < 0 || from >= segments.len() {
        None
    } else if segment_fault(segments[from], from) is Some {
        segment_fault(segments[from], from)
    } else {
        first_fault(segments, from + 1)
    }
}

/// Memory after the segments have been loaded in order: each one that starts
/// at or above the start of the window is copied to its address, the others
/// are skipped.
pub open spec fn loaded(mem: Seq<u8>, segments: Seq<SegmentModel>) -> Seq<u8>
    decreases segments.len(),
{
    if segments.len() == 0 {
        mem
    } else {
        let before = loaded(mem, segments.drop_last());
        let segment = segments.last();
        if is_placed(segment) {
            stored(before, segment.vaddr - MAGIC_START, segment.data)
        } else {
            before
        }
    }
}

/// Whether two segments share no address.
pub open spec fn are_disjoint(a: SegmentModel, b: SegmentModel) -> bool {
    a.vaddr + a.data.len() <= b.vaddr || b.vaddr + b.data.len() <= a.vaddr
}

/// After the segments have been loaded, memory holds byte for byte every
/// segment that was placed inside the window and that no segment placed after
/// it overlaps.
pub proof fn lemma_loaded_segment_is_in_memory(mem: Seq<u8>, segments: Seq<SegmentModel>, k: int)
    requires
        mem.len() == MEMSIZE,
        0 <= k < segments.len(),
        is_placed(segments[k]),
        segment_fault(segments[k], k) is None,
        forall|j: int|
            k < j < segments.len() && is_placed(#[trigger] segments[j]) ==> are_disjoint(
                segments[k],
                segments[j],
            ),
    ensures
        loaded(mem, segments).subrange(
            segments[k].vaddr - MAGIC_START,
            segments[k].vaddr - MAGIC_START + segments[k].data.len(),
        ) == segments[k].data,
    decreases segments.len(),
{
    let rest = segments.drop_last();
    let last = segments.last();
    let before = loaded(mem, rest);
    let start = segments[k].vaddr - MAGIC_START;
    let end = start + segments[k].data.len();
    lemma_loaded_len(mem, rest);
    lemma_loaded_len(mem, segments);
    if k < segments.len() - 1 {
        lemma_loaded_segment_is_in_memory(mem, rest, k);
        assert(before.subrange(start, end) == segments[k].data);
        assert forall|i: int| start <= i < end implies loaded(mem, segments)[i] == before[i] by {
            if is_placed(last) {
                assert(are_disjoint(segments[k], segments[segments.len() - 1]));
            }
        }
        assert forall|i: int| 0 <= i < end - start implies loaded(mem, segments).subrange(
            start,
            end,
        )[i] == segments[k].data[i] by {
            assert(before.subrange(start, end)[i] == before[start + i]);
        }
    }
    assert(loaded(mem, segments).subrange(start, end) =~= segments[k].data);
}

/// After a load, a dump of the first `size` bytes of memory reproduces the
/// bytes of a segment placed at the start of the window that is at least that
/// long and that no segment placed after it overlaps: every row is the row of
/// the segment's own bytes.
pub proof fn lemma_dump_reproduces_segment(
    mem: Seq<u8>,
    segments: Seq<SegmentModel>,
    k: int,
    size: int,
    row: int,
    style: DumpStyle,
)
    requires
        mem.len() == MEMSIZE,
        0 <= k < segments.len(),
        segments[k].vaddr == MAGIC_START,
        segment_fault(segments[k], k) is None,
        forall|j: int|
            k < j < segments.len() && is_placed(#[trigger] segments[j]) ==> are_disjoint(
                segments[k],
                segments[j],
            ),
        0 <= row,
        size <= segments[k].data.len(),
    ensures
        word_row(loaded(mem, segments), size, row, style) == word_row(
            segments[k].data,
            size,
            row,
            style,
        ),
{
    let after = loaded(mem, segments);
    let data = segments[k].data;
    lemma_loaded_segment_is_in_memory(mem, segments, k);
    lemma_loaded_len(mem, segments);
    assert forall|i: int| 0 <= i < size implies after[i] == data[i] by {
        assert(after.subrange(0, data.len() as int)[i] == after[i]);
    }
    lemma_rows_read_the_dumped_bytes(after, data, size, row, style);
}

/// Loading keeps the size of memory.
pub proof fn lemma_loaded_len(mem: Seq<u8>, segments: Seq<SegmentModel>)
    ensures
        loaded(mem, segments).len() == mem.len(),
    decreases segments.len(),
{
    if segments.len() > 0 {
        lemma_loaded_len(mem, segments.drop_last());
    }
}

/// How loading `segments` into a machine in state `machine` ends, and the
/// state it leaves: all segments are loaded, or none is.
pub open spec fn load_outcome(machine: Machine, segments: Seq<SegmentModel>) -> (
    Result<(), LoadError>,
    Machine,
) {
    match first_fault(segments, 0) {
        Some(fault) => (Err(fault), machine),
        None => (
            Ok(()),
            Machine { memory: loaded(machine.memory, segments), registers: machine.registers },
        ),
    }
}

/// Whether the bytes that `header` names lie inside `image`.
pub open spec fn is_readable(image: Seq<u8>, header: SegmentHeader) -> bool {
    header.p_offset + header.p_filesz <= image.len()
}

/// The segment that `header` names in `image`.
pub open spec fn segment_of(image: Seq<u8>, header: SegmentHeader) -> SegmentModel {
    SegmentModel {
        vaddr: header.p_vaddr,
        data: image.subrange(header.p_offset as int, header.p_offset + header.p_filesz),
    }
}

/// The index of the first header from index `from` on whose bytes lie outside
/// the image.
pub open spec fn first_unreadable(image: Seq<u8>, headers: Seq<SegmentHeader>, from: int) -> Option<
    int,
>
    decreases headers.len() - from,
{
    if from < 0 || from >= headers.len() {
        None
    } else if !is_readable(image, headers[from]) {
        Some(from)
    } else {
        first_unreadable(image, headers, from + 1)
    }
}

/// Whether `image` starts with an ELF file header that the `elf` crate accepts
/// for a little-endian reader: what `ElfBytes::minimal_parse` decides.
pub uninterp spec fn elf_parses(image: Seq<u8>) -> bool;

/// The program header table that the `elf` crate finds in `image`, entry by
/// entry in table order: what `ElfBytes::segments` hands out for an image that
/// parses.
pub uninterp spec fn elf_program_headers(image: Seq<u8>) -> Option<Seq<SegmentHeader>>;

/// The bytes that a parsed image was made from.
pub uninterp spec fn elf_image(elf: ElfImage<'_>) -> Seq<u8>;

/// The segments of `image`, or why they cannot be had.
pub open spec fn image_segments(image: Seq<u8>) -> Result<Seq<SegmentModel>, LoadError> {
    if !elf_parses(image) {
        Err(LoadError::Unparsable)
    } else {
        match elf_program_headers(image) {
            None => Err(LoadError::NoSegments),
            Some(headers) => match first_unreadable(image, headers, 0) {
                Some(index) => Err(LoadError::Unreadable { index: index as usize }),
                None => Ok(headers.map_values(|header: SegmentHeader| segment_of(image, header))),
            },
        }
    }
}

/// A parsed image: the handle that the `elf` crate gives for the bytes of an
/// ELF file. Verus cannot take the declaration of `elf::ElfBytes`, whose
/// parameter is bound by a trait of that crate, so the handle is held here,
/// out of the verifier's sight.
#[verifier::external_body]
pub struct ElfImage<'a> {
    handle: ElfBytes<'a, LittleEndian>,
}

/// The error type of the `elf` crate.
#[verifier::external_type_specification]
#[verifier::external_body]
pub struct ExParseError(ParseError);

/// Calls `elf::ElfBytes::<LittleEndian>::minimal_parse`. The call succeeds
/// exactly on the images that `elf_parses` names, and the handle it returns
/// reads from the bytes it was given.
#[verifier::external_body]
fn parse_image<'a>(image: &'a [u8]) -> (r: Result<ElfImage<'a>, ParseError>)
    ensures
        r is Ok <==> elf_parses(image@),
        r matches Ok(elf) ==> elf_image(elf) == image@,
{
    ElfBytes::<LittleEndian>::minimal_parse(image).map(|handle| ElfImage { handle })
}

/// Calls `elf::ElfBytes::segments` and hands out what the iterator of the
/// table it returns yields, in order, each entry with its fields copied as
/// they are. The result is what `elf_program_headers` names for the bytes of
/// the image; `None` stands for an image without a table.
#[verifier::external_body]
fn program_headers(elf: &ElfImage<'_>) -> (r: Option<Vec<SegmentHeader>>)
    ensures
        match r {
            Some(headers) => elf_program_headers(elf_image(*elf)) == Some(headers@),
            None => elf_program_headers(elf_image(*elf)) is None,
        },
{
    let table = elf.handle.segments()?;
    let header = |h: ProgramHeader| SegmentHeader {
        p_type: h.p_type,
        p_offset: h.p_offset,
        p_vaddr: h.p_vaddr,
        p_paddr: h.p_paddr,
        p_filesz: h.p_filesz,
        p_memsz: h.p_memsz,
        p_flags: h.p_flags,
        p_align: h.p_align,
    };
    Some(table.iter().map(header).collect())
}

/// Calls `elf::ElfBytes::segment_data` with the header given, each field
/// copied as it is. The call returns the `p_filesz` bytes of the image from
/// offset `p_offset` on, and fails exactly when they do not all lie inside the
/// image.
#[verifier::external_body]
fn segment_bytes<'a>(elf: &ElfImage<'a>, header: &SegmentHeader) -> (r: Result<
    &'a [u8],
    ParseError,
>)
    ensures
        r is Ok <==> is_readable(elf_image(*elf), *header),
        r matches Ok(data) ==> data@ == segment_of(elf_image(*elf), *header).data,
{
    let header = ProgramHeader {
        p_type: header.p_type,
        p_offset: header.p_offset,
        p_vaddr: header.p_vaddr,
        p_paddr: header.p_paddr,
        p_filesz: header.p_filesz,
        p_memsz: header.p_memsz,
        p_flags: header.p_flags,
        p_align: header.p_align,
    };
    elf.handle.segment_data(&header)
}

/// The segments of an ELF image, in the order of its program header table,
/// each with the bytes that the image holds for it.
pub fn read_segments<'a>(image: &'a [u8]) -> (r: Result<Vec<Segment<'a>>, LoadError>)
    ensures
        match r {
            Ok(segments) => image_segments(image@) == Ok::<Seq<SegmentModel>, LoadError>(
                segments.deep_view(),
            ),
            Err(fault) => image_segments(image@) == Err::<Seq<SegmentModel>, LoadError>(fault),
        },
{
    let elf = match parse_image(image) {
        Ok(elf) => elf,
        Err(_) => {
            return Err(LoadError::Unparsable);
        },
    };
    let headers = match program_headers(&elf) {
        Some(headers) => headers,
        None => {
            return Err(LoadError::NoSegments);
        },
    };
    let mut segments: Vec<Segment<'a>> = Vec::new();
    let mut i: usize = 0;
    while i < headers.len()
        invariant
            i <= headers.len(),
            elf_image(elf) == image@,
            elf_parses(image@),
            elf_program_headers(image@) == Some(headers@),
            first_unreadable(image@, headers@, 0) == first_unreadable(image@, headers@, i as int),
            segments@.len() == i,
            forall|j: int|
                0 <= j < i ==> (#[trigger] segments@[j])@ == segment_of(image@, headers@[j]),
        decreases headers.len() - i,
    {
        let header: SegmentHeader = headers[i];
        match segment_bytes(&elf, &header) {
            Ok(data) => {
                let segment = Segment { vaddr: header.p_vaddr, data };
                assert(segment@ == segment_of(image@, header));
                segments.push(segment);
            },
            Err(_) => {
                return Err(LoadError::Unreadable { index: i });
            },
        }
        i += 1;
    }
    assert(segments.deep_view() =~= headers@.map_values(
        |header: SegmentHeader| segment_of(image@, header),
    ));
    Ok(segments)
}

impl CPU {
    /// Load segments into memory, in order. A segment below the start of
    /// memory is skipped. When one segment is at fault nothing is loaded.
    pub fn load_segments(&mut self, segments: &Vec<Segment>) -> (r: Result<(), LoadError>)
        ensures
            (r, final(self)@) == load_outcome(old(self)@, segments.deep_view()),
    {
        let ghost models = segments.deep_view();
        let mut i: usize = 0;
        while i < segments.len()
            invariant
                i <= segments.len(),
                models == segments.deep_view(),
                *self == *old(self),
                first_fault(models, 0) == first_fault(models, i as int),
                forall|j: int| 0 <= j < i ==> segment_fault(models[j], j) is None,
            decreases segments.len() - i,
        {
            let segment: &Segment = &segments[i];
            assert(models[i as int] == segment@);
            if segment.vaddr > u32::MAX as u64 {
                return Err(LoadError::AddressTooLarge { index: i });
            }
            let address: u32 = segment.vaddr as u32;
            if address >= MAGIC_START && !window_holds(address, segment.data.len()) {
                return Err(LoadError::OutOfWindow { index: i });
            }
            i += 1;
        }
        let mut i: usize = 0;
        while i < segments.len()
            invariant
                i <= segments.len(),
                models == segments.deep_view(),
                forall|j: int| 0 <= j < models.len() ==> segment_fault(models[j], j) is None,
                first_fault(models, 0) is None,
                self@.registers == old(self)@.registers,
                self@.memory == loaded(old(self)@.memory, models.take(i as int)),
            decreases segments.len() - i,
        {
            let segment: &Segment = &segments[i];
            assert(models[i as int] == segment@);
            assert(segment_fault(models[i as int], i as int) is None);
            assert(models.take(i + 1).drop_last() =~= models.take(i as int));
            if segment.vaddr >= MAGIC_START as u64 {
                self.load(segment.vaddr as u32, segment.data);
            }
            i += 1;
        }
        assert(models.take(i as int) =~= models);
        Ok(())
    }

    /// Load the segments of an ELF image into memory.
    pub fn load_image(&mut self, image: &[u8]) -> (r: Result<(), LoadError>)
        ensures
            (r, final(self)@) == match image_segments(image@) {
                Ok(segments) => load_outcome(old(self)@, segments),
                Err(fault) => (Err(fault), old(self)@),
            },
    {
        match read_segments(image) {
            Ok(segments) => self.load_segments(&segments),
            Err(fault) => Err(fault),
        }
    }
}

} // verus!
