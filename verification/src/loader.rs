//! Loading a program: the segments of its ELF file, and those of the dynamic
//! linker where the program needs it, written into a new address space.

use vstd::prelude::*;
use crate::disassembler::{added_symbols, sorted, Disassembler, Symbols};
use crate::elf_image::{
    header_in, image_in, ElfHeader, ElfImage, ElfSegment, ImageView, SegmentView, PT_DYNAMIC,
    PT_LOAD, PT_PHDR,
};
use crate::error::RVError;
use crate::memory::{
    initial_view, padded, page_of, Memory, MemoryView, ProgramHeaderInfo, LINKER_START, PAGE_SIZE,
    STACK_START,
};

verus! {

/// Whether a segment of this type is loaded.
pub open spec fn is_loaded(p_type: u32) -> bool {
    p_type == PT_LOAD || p_type == PT_PHDR || p_type == PT_DYNAMIC
}

/// The number of pages that the `size` bytes from `start` on touch.
pub open spec fn pages_touched(start: u64, size: u64) -> int {
    if size == 0 {
        0
    } else {
        page_of((start + size - 1) as u64) - page_of(start) + 1
    }
}

impl MemoryView {
    /// The state after one segment has been loaded at `offset`. A segment
    /// that is not of a loaded type changes nothing. A loaded segment has its
    /// pages mapped, those that were mapped keeping their bytes, and its bytes
    /// written at its address, with zeros behind up to its size in memory; the
    /// segment of the program headers also sets what the auxiliary vector says
    /// of them. A segment that does not fit the address space is an invalid
    /// file; a byte that cannot be stored is a segmentation fault.
    pub open spec fn with_segment(self, offset: u64, header: ElfHeader, segment: SegmentView)
        -> Result<MemoryView, RVError> {
        if !is_loaded(segment.p_type) {
            Ok(self)
        } else if offset + segment.p_vaddr > STACK_START || offset + segment.p_vaddr
            + segment.p_memsz > STACK_START + 1 {
            Err(RVError::InvalidFileType)
        } else {
            let start = (offset + segment.p_vaddr) as u64;
            let noted = if segment.p_type == PT_PHDR {
                MemoryView {
                    program_header: ProgramHeaderInfo {
                        entry: header.e_entry,
                        address: start,
                        size: segment.p_memsz,
                        number: header.e_phnum as u64,
                    },
                    ..self
                }
            } else {
                self
            };
            let mapped = noted.with_pages(
                page_of(start),
                pages_touched(start, segment.p_memsz),
                false,
            );
            match mapped.store_each(start, padded(segment.data, segment.p_memsz as int)) {
                Some(written) => Ok(written),
                None => Err(RVError::SegmentationFault),
            }
        }
    }

    /// The state after the first `upto` segments have been loaded at
    /// `offset`, one after the other; the first failure ends the loading.
    pub open spec fn with_segments(
        self,
        offset: u64,
        header: ElfHeader,
        segments: Seq<SegmentView>,
        upto: int,
    ) -> Result<MemoryView, RVError>
        decreases upto,
    {
        if upto <= 0 {
            Ok(self)
        } else {
            match self.with_segments(offset, header, segments, upto - 1) {
                Ok(before) => before.with_segment(offset, header, segments[upto - 1]),
                Err(e) => Err(e),
            }
        }
    }

    /// The state after all segments of a file have been loaded at `offset`.
    pub open spec fn with_image(self, offset: u64, image: ImageView) -> Result<MemoryView, RVError> {
        self.with_segments(offset, image.header, image.segments, image.segments.len() as int)
    }
}

/// The address space of a loaded program, but for its symbols. A program
/// that lacks dynamic symbols or a dynamic table is loaded at its own
/// addresses and starts at its entry. One with both needs the linker: the linker is loaded at
/// `LINKER_START`, then the program at its own addresses, and the guest
/// starts at the linker's entry; without a linker the file is invalid.
pub open spec fn loaded_view(image: ImageView, linker: Option<ImageView>) -> Result<
    MemoryView,
    RVError,
> {
    if !image.dynamic() {
        match initial_view().with_image(0, image) {
            Ok(m) => Ok(MemoryView { entry: image.header.e_entry, ..m }),
            Err(e) => Err(e),
        }
    } else {
        match linker {
            None => Err(RVError::InvalidFileType),
            Some(ld) => match initial_view().with_image(LINKER_START, ld) {
                Ok(first) => match first.with_image(0, image) {
                    Ok(m) => Ok(
                        MemoryView { entry: LINKER_START.wrapping_add(ld.header.e_entry), ..m },
                    ),
                    Err(e) => Err(e),
                },
                Err(e) => Err(e),
            },
        }
    }
}

/// The symbols that a loaded program's table holds, in the order in which
/// they were added: those of the program, then those of the linker, moved to
/// where the linker lies.
pub open spec fn loaded_symbols(image: ImageView, linker: Option<ImageView>) -> Symbols {
    if image.dynamic() && linker is Some {
        added_symbols(image, 0) + added_symbols(linker.unwrap(), LINKER_START)
    } else {
        added_symbols(image, 0)
    }
}

/// The view of a file that may be missing.
pub open spec fn image_view(image: Option<&ElfImage>) -> Option<ImageView> {
    match image {
        Some(i) => Some(i@),
        None => None,
    }
}

impl Memory {
    /// Loads one segment at `offset`.
    fn map_segment(&mut self, offset: u64, header: &ElfHeader, segment: &ElfSegment) -> (r: Result<
        (),
        RVError,
    >)
        requires
            old(self).well_formed(),
        ensures
            final(self).well_formed(),
            match r {
                Ok(()) => old(self)@.with_segment(offset, *header, segment@) == Ok::<
                    MemoryView,
                    RVError,
                >(final(self)@),
                Err(e) => old(self)@.with_segment(offset, *header, segment@) == Err::<
                    MemoryView,
                    RVError,
                >(e),
            },
    {
        if !(segment.p_type == PT_LOAD || segment.p_type == PT_PHDR || segment.p_type
            == PT_DYNAMIC) {
            return Ok(());
        }
        if segment.p_vaddr > STACK_START - offset {
            return Err(RVError::InvalidFileType);
        }
        let addr_start = offset + segment.p_vaddr;
        if segment.p_memsz > 0 && segment.p_memsz - 1 > STACK_START - addr_start {
            return Err(RVError::InvalidFileType);
        }
        if segment.p_type == PT_PHDR {
            self.set_program_header(
                ProgramHeaderInfo {
                    entry: header.e_entry,
                    address: addr_start,
                    size: segment.p_memsz,
                    number: header.e_phnum as u64,
                },
            );
        }
        let first = addr_start / PAGE_SIZE;
        let count = if segment.p_memsz == 0 {
            0
        } else {
            (addr_start + (segment.p_memsz - 1)) / PAGE_SIZE - first + 1
        };
        self.map_pages(first, count, false);
        match self.write_n(segment.data.as_slice(), addr_start, segment.p_memsz) {
            Ok(()) => Ok(()),
            Err(e) => Err(e),
        }
    }

    /// Loads the segments of a file at `offset`, in their order.
    pub fn map_segments(&mut self, offset: u64, image: &ElfImage) -> (r: Result<(), RVError>)
        requires
            old(self).well_formed(),
        ensures
            final(self).well_formed(),
            match r {
                Ok(()) => old(self)@.with_image(offset, image@) == Ok::<MemoryView, RVError>(
                    final(self)@,
                ),
                Err(e) => old(self)@.with_image(offset, image@) == Err::<MemoryView, RVError>(e),
            },
    {
        let mut i: usize = 0;
        while i < image.segments.len()
            invariant
                self.well_formed(),
                i <= image.segments@.len(),
                image@.segments.len() == image.segments@.len(),
                old(self)@.with_segments(offset, image@.header, image@.segments, i as int) == Ok::<
                    MemoryView,
                    RVError,
                >(self@),
            decreases image.segments.len() - i,
        {
            assert(image@.segments[i as int] == image.segments@[i as int]@);
            match self.map_segment(offset, &image.header, &image.segments[i]) {
                Ok(()) => {},
                Err(e) => {
                    proof {
                        lemma_failure_stays(
                            old(self)@,
                            offset,
                            image@.header,
                            image@.segments,
                            i + 1,
                        );
                    }
                    return Err(e);
                },
            }
            i += 1;
        }
        Ok(())
    }

    /// Loads a program into a new address space, with the dynamic linker
    /// where the program has dynamic tables, and collects the symbols of
    /// both. Fails with `InvalidFileType` where the program needs a linker
    /// and none is given, or a segment does not fit the address space.
    pub fn load_elf(image: &ElfImage, linker: Option<&ElfImage>) -> (r: Result<Memory, RVError>)
        ensures
            match r {
                Ok(memory) => {
                    &&& memory.well_formed()
                    &&& loaded_view(image@, image_view(linker)) == Ok::<MemoryView, RVError>(
                        MemoryView { symbols: Seq::empty(), ..memory@ },
                    )
                    &&& memory@.symbols.to_multiset() == loaded_symbols(
                        image@,
                        image_view(linker),
                    ).to_multiset()
                },
                Err(e) => loaded_view(image@, image_view(linker)) == Err::<MemoryView, RVError>(e),
            },
    {
        let mut memory = Memory::new();
        let mut disassembler = Disassembler::new();
        disassembler.add_elf_symbols(image, 0);
        assert(Seq::<(u64, Seq<char>)>::empty() + added_symbols(image@, 0) =~= added_symbols(
            image@,
            0,
        ));
        if image.dynamic() {
            let ld = match linker {
                Some(ld) => ld,
                None => {
                    return Err(RVError::InvalidFileType);
                },
            };
            match memory.map_segments(LINKER_START, ld) {
                Ok(()) => {},
                Err(e) => {
                    return Err(e);
                },
            }
            match memory.map_segments(0, image) {
                Ok(()) => {},
                Err(e) => {
                    return Err(e);
                },
            }
            let ghost before = disassembler@;
            disassembler.add_elf_symbols(ld, LINKER_START);
            proof {
                let extra = added_symbols(ld@, LINKER_START);
                vstd::seq_lib::lemma_multiset_commutative(before, extra);
                vstd::seq_lib::lemma_multiset_commutative(added_symbols(image@, 0), extra);
            }
            memory.set_entry(LINKER_START.wrapping_add(ld.header.e_entry));
        } else {
            match memory.map_segments(0, image) {
                Ok(()) => {},
                Err(e) => {
                    return Err(e);
                },
            }
            memory.set_entry(image.header.e_entry);
        }
        let ghost before = memory@;
        proof {
            if image@.dynamic() {
                let ld = linker.unwrap()@;
                lemma_loading_keeps_symbols(
                    initial_view(),
                    LINKER_START,
                    ld.header,
                    ld.segments,
                    ld.segments.len() as int,
                );
                lemma_loading_keeps_symbols(
                    initial_view().with_image(LINKER_START, ld).unwrap(),
                    0,
                    image@.header,
                    image@.segments,
                    image@.segments.len() as int,
                );
            } else {
                lemma_loading_keeps_symbols(
                    initial_view(),
                    0,
                    image@.header,
                    image@.segments,
                    image@.segments.len() as int,
                );
            }
            assert(before.symbols == Seq::<(u64, Seq<char>)>::empty());
        }
        memory.set_disassembler(disassembler);
        assert(before == MemoryView { symbols: Seq::empty(), ..memory@ });
        Ok(memory)
    }
}

/// Loading segments leaves the symbols as they are.
pub proof fn lemma_loading_keeps_symbols(
    m: MemoryView,
    offset: u64,
    header: ElfHeader,
    segments: Seq<SegmentView>,
    upto: int,
)
    requires
        0 <= upto <= segments.len(),
        m.with_segments(offset, header, segments, upto) is Ok,
    ensures
        m.with_segments(offset, header, segments, upto).unwrap().symbols == m.symbols,
    decreases upto,
{
    if upto > 0 {
        lemma_loading_keeps_symbols(m, offset, header, segments, upto - 1);
        let before = m.with_segments(offset, header, segments, upto - 1).unwrap();
        let segment = segments[upto - 1];
        if is_loaded(segment.p_type) {
            let start = (offset + segment.p_vaddr) as u64;
            let noted = if segment.p_type == PT_PHDR {
                MemoryView {
                    program_header: ProgramHeaderInfo {
                        entry: header.e_entry,
                        address: start,
                        size: segment.p_memsz,
                        number: header.e_phnum as u64,
                    },
                    ..before
                }
            } else {
                before
            };
            let mapped = noted.with_pages(
                page_of(start),
                pages_touched(start, segment.p_memsz),
                false,
            );
            crate::memory_facts::lemma_store_each_changes_memory_only(
                mapped,
                start,
                padded(segment.data, segment.p_memsz as int),
            );
        }
    }
}

/// Where loading the first `upto` segments fails, loading them all fails in
/// the same way.
pub proof fn lemma_failure_stays(
    m: MemoryView,
    offset: u64,
    header: ElfHeader,
    segments: Seq<SegmentView>,
    upto: int,
)
    requires
        0 <= upto <= segments.len(),
        m.with_segments(offset, header, segments, upto) is Err,
    ensures
        m.with_segments(offset, header, segments, segments.len() as int) == m.with_segments(
            offset,
            header,
            segments,
            upto,
        ),
    decreases segments.len() - upto,
{
    if upto < segments.len() {
        lemma_failure_stays(m, offset, header, segments, upto + 1);
    }
}


/// Whether the `elf` crate reads the bytes as the file of a 64-bit RISC-V
/// program.
pub open spec fn is_program(data: Seq<u8>) -> bool {
    header_in(data) is Some && header_in(data).unwrap().supported()
}

/// Whether `memory` is what loading the file `data` gives, with the dynamic
/// linker from the file `linker` where the program needs it: the address
/// space is that of `loaded_view`, and the symbols are those of
/// `loaded_symbols` in the order of their addresses.
pub open spec fn loads_as(data: Seq<u8>, linker: Option<Seq<u8>>, memory: MemoryView) -> bool {
    let image = image_in(data);
    let with_linker = if image.dynamic() && linker is Some {
        Some(image_in(linker.unwrap()))
    } else {
        None
    };
    &&& memory.well_formed()
    &&& loaded_view(image, with_linker) == Ok::<MemoryView, RVError>(
        MemoryView { symbols: Seq::empty(), ..memory },
    )
    &&& memory.symbols.to_multiset() == loaded_symbols(image, with_linker).to_multiset()
}

/// The fault with which loading the file `data` fails, if it does: the file,
/// or the linker that it needs, is no 64-bit RISC-V program, or the loading
/// itself fails.
pub open spec fn load_fault(data: Seq<u8>, linker: Option<Seq<u8>>) -> Option<RVError> {
    if !is_program(data) {
        Some(RVError::InvalidFileType)
    } else if !image_in(data).dynamic() {
        match loaded_view(image_in(data), None) {
            Ok(_) => None,
            Err(e) => Some(e),
        }
    } else if linker is None || !is_program(linker.unwrap()) {
        Some(RVError::InvalidFileType)
    } else {
        match loaded_view(image_in(data), Some(image_in(linker.unwrap()))) {
            Ok(_) => None,
            Err(e) => Some(e),
        }
    }
}

/// The bytes of a file that may be missing.
pub open spec fn bytes_view(data: Option<&[u8]>) -> Option<Seq<u8>> {
    match data {
        Some(d) => Some(d@),
        None => None,
    }
}

impl Memory {
    /// Reads the file of a program and loads it into a new address space,
    /// with the dynamic linker, read from its own file, where the program has
    /// dynamic tables. Fails with `InvalidFileType` where the file, or the
    /// linker that it needs, is no 64-bit RISC-V program.
    pub fn from_file(file_data: &[u8], linker_data: Option<&[u8]>) -> (r: Result<Memory, RVError>)
        ensures
            match r {
                Ok(memory) => load_fault(file_data@, bytes_view(linker_data)) is None && loads_as(
                    file_data@,
                    bytes_view(linker_data),
                    memory@,
                ),
                Err(e) => load_fault(file_data@, bytes_view(linker_data)) == Some(e),
            },
    {
        let image = match ElfImage::read(file_data) {
            Ok(image) => image,
            Err(e) => {
                return Err(e);
            },
        };
        if !image.dynamic() {
            return Memory::load_elf(&image, None);
        }
        let linker = match linker_data {
            Some(data) => match ElfImage::read(data) {
                Ok(linker) => linker,
                Err(e) => {
                    return Err(e);
                },
            },
            None => {
                return Err(RVError::InvalidFileType);
            },
        };
        Memory::load_elf(&image, Some(&linker))
    }
}

} // verus!
