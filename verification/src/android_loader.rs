//! The loader: symbol resolution, image allocation, segment loading and
//! relocation.

use crate::android_library::{string_table, symbol_table, AndroidLibrary, Symbol};
use crate::elf::{
    AddendSource, LoadError, Origin, Protection, ProtectionRequest, RelocationEntry, Segment,
};
use crate::hooks::HookSet;
use crate::image::{map_anonymous, overwritten, zeroes};
use crate::layout::{
    highest_end, image_end, image_size, lemma_aligned_difference, lemma_highest_end_bounds,
    lowest_start, protected_end, protected_start, protection_of,
};
use crate::names::{has_prefix, same_name, starts_with};
use crate::page::{page_aligned, PageSize};
use crate::relocation::{
    all_applicable, lemma_supported_prefix, linkage, relocated, supported, supported_prefix,
    with_word,
};
use crate::resolve::{libc_symbol, resolved, StubTable};
use crate::word::{decode_word, encode_word, ByteOrder};
use vstd::prelude::*;

verus! {

/// `path` with every backslash turned into a forward slash.
pub open spec fn folded_path(path: Seq<u8>) -> Seq<u8> {
    Seq::new(
        path.len(),
        |i: int|
            if path[i] == 0x5c {
                0x2fu8
            } else {
                path[i]
            },
    )
}

pub struct AndroidLoader {}

impl AndroidLoader {
    /// What every function of the pthread family does in a loaded library:
    /// nothing, with success reported.
    pub fn pthread_stub() -> (status: i32)
        ensures
            status == 0,
    {
        0
    }

    /// What the stub for a symbol that nothing provides says when loaded code
    /// calls it; the caller then aborts.
    pub fn undefined_symbol_stub() -> (complaint: &'static str)
        ensures
            complaint@ == "tried to call an undefined symbol"@,
    {
        "tried to call an undefined symbol"
    }

    /// The path that `dlopen` opens on a host whose paths are written with
    /// backslashes.
    pub fn fold_path(path: &[u8]) -> (folded: Vec<u8>)
        ensures
            folded@ == folded_path(path@),
    {
        let mut folded: Vec<u8> = Vec::new();
        let mut done: usize = 0;
        while done < path.len()
            invariant
                done <= path@.len(),
                folded@.len() == done,
                forall|i: int| 0 <= i < done ==> folded@[i] == folded_path(path@)[i],
            decreases path@.len() - done,
        {
            let byte: u8 = path[done];
            if byte == 0x5c {
                folded.push(0x2f);
            } else {
                folded.push(byte);
            }
            done = done + 1;
        }
        folded
    }

    /// What `dlsym` answers: the address of `symbol` in `library`, or zero,
    /// the null address, where there is no library or it has no such symbol.
    pub fn dlsym(library: Option<&AndroidLibrary>, symbol: &str) -> (address: usize)
        ensures
            address == (match library {
                Some(found) if found.symbols().contains_key(symbol@) => AndroidLibrary::address_at(
                    found.base(),
                    found.symbols()[symbol@],
                ),
                _ => 0,
            }),
    {
        match library {
            Some(found) => match found.get_symbol(symbol) {
                Some(address) => address,
                None => 0,
            },
            None => 0,
        }
    }

    /// The address that loaded code sees for `symbol_name`: that of its hook
    /// if `hooks` has one, whatever the name, else that of its stub. The
    /// symbols of `library` itself play no part.
    pub fn symbol_finder(
        symbol_name: &str,
        library: &AndroidLibrary,
        hooks: &HookSet,
        stubs: &StubTable,
    ) -> (address: usize)
        ensures
            address == resolved(symbol_name@, hooks@, *stubs),
            hooks@.contains_key(symbol_name@) ==> address == hooks@[symbol_name@],
    {
        match hooks.get(symbol_name) {
            Some(address) => address,
            None => Self::get_libc_symbol(symbol_name, stubs),
        }
    }

    /// The stub that stands in for `symbol_name`: the pthread stub for a name
    /// of the pthread family, the stub of the same name for `dlopen`, `dlsym`
    /// and `dlclose`, and the aborting stub for anything else.
    pub fn get_libc_symbol(symbol_name: &str, stubs: &StubTable) -> (address: usize)
        ensures
            address == libc_symbol(symbol_name@, *stubs),
            has_prefix(symbol_name@, "pthread_"@) ==> address == stubs.pthread,
    {
        if starts_with(symbol_name, "pthread_") {
            stubs.pthread
        } else if same_name(symbol_name, "dlopen") {
            stubs.dlopen
        } else if same_name(symbol_name, "dlsym") {
            stubs.dlsym
        } else if same_name(symbol_name, "dlclose") {
            stubs.dlclose
        } else {
            stubs.undefined
        }
    }

    /// Makes the library for `segments`, which are not empty: an image of
    /// zeroes that spans them, from page boundary to page boundary, and the
    /// indexes of `symbols`, the dynamic symbols in the order of their table.
    /// It fails where the span does not fit the address space, and where the
    /// host does not provide the memory.
    pub fn allocate(segments: &Vec<Segment>, symbols: &Vec<Symbol>, page: &PageSize) -> (library:
        Result<AndroidLibrary, LoadError>)
        requires
            segments@.len() > 0,
        ensures
            image_end(segments@, page@) > usize::MAX ==> library is Err,
            library matches Err(error) ==> error == LoadError::AllocationFailed,
            library matches Ok(made) ==> {
                &&& made.image() == zeroes(image_size(segments@, page@) as nat)
                &&& made.image().len() == image_size(segments@, page@)
                &&& made.image().len() >= highest_end(segments@) - lowest_start(segments@)
                &&& page_aligned(made.image().len() as int, page@)
                &&& made.symbols() == symbol_table(symbols@)
                &&& made.strings() == string_table(symbols@)
            },
    {
        let size: usize = match Self::span(segments, page) {
            Some(size) => size,
            None => {
                return Err(LoadError::AllocationFailed);
            },
        };
        AndroidLibrary::from_mapping(map_anonymous(size), symbols)
    }

    /// The size of the image of `segments`, which are not empty, or `None`
    /// where the image would end beyond the address space.
    pub fn span(segments: &Vec<Segment>, page: &PageSize) -> (size: Option<usize>)
        requires
            segments@.len() > 0,
        ensures
            image_end(segments@, page@) > usize::MAX <==> size is None,
            size matches Some(bytes) ==> {
                &&& bytes == image_size(segments@, page@)
                &&& page_aligned(bytes as int, page@)
                &&& bytes >= highest_end(segments@) - lowest_start(segments@)
            },
    {
        let unit: usize = page.bytes();
        let mut minimum: usize = segments[0].virtual_addr;
        let mut maximum: usize = 0;
        let mut done: usize = 0;
        while done < segments.len()
            invariant
                done <= segments@.len(),
                segments@.len() > 0,
                unit == page@,
                unit > 0,
                maximum == highest_end(segments@.take(done as int)),
                done == 0 ==> minimum == segments@[0].virtual_addr,
                done > 0 ==> minimum == lowest_start(segments@.take(done as int)),
            decreases segments@.len() - done,
        {
            let segment: &Segment = &segments[done];
            let extent: usize = if segment.file_size >= segment.mem_size {
                segment.file_size
            } else {
                segment.mem_size
            };
            proof {
                assert(segments@.take(done + 1).drop_last() =~= segments@.take(done as int));
            }
            if segment.virtual_addr > usize::MAX - extent {
                proof {
                    lemma_highest_end_bounds(segments@, done as int);
                }
                return None;
            }
            let end: usize = segment.virtual_addr + extent;
            if end > maximum {
                maximum = end;
            }
            if segment.virtual_addr < minimum {
                minimum = segment.virtual_addr;
            }
            done = done + 1;
        }
        proof {
            assert(segments@.take(done as int) =~= segments@);
        }
        let start: usize = page.floor(minimum);
        match page.ceil(maximum) {
            Some(end) => {
                proof {
                    lemma_aligned_difference(start as int, end as int, page@);
                }
                Some(end - start)
            },
            None => None,
        }
    }

    /// Copies the bytes that the file holds for `segment` to its place in the
    /// image, and says which pages the host is to protect, and how. What of
    /// the segment lies beyond the bytes of the file keeps the value it had.
    /// It fails, after the copy, where the pages would end beyond the address
    /// space.
    pub fn load(
        library: &mut AndroidLibrary,
        segment: &Segment,
        region: &[u8],
        page: &PageSize,
        max_page_size: usize,
    ) -> (request: Result<ProtectionRequest, LoadError>)
        requires
            segment.virtual_addr + segment.file_size <= old(library).image().len(),
            region@.len() == segment.file_size,
        ensures
            final(library).image() == overwritten(
                old(library).image(),
                segment.virtual_addr as int,
                region@,
            ),
            final(library).image().len() == old(library).image().len(),
            final(library).base() == old(library).base(),
            final(library).symbols() == old(library).symbols(),
            final(library).strings() == old(library).strings(),
            protected_end(old(library).base(), *segment, page@) > usize::MAX <==> request is Err,
            request matches Err(error) ==> error == LoadError::ProtectionFailed,
            request matches Ok(change) ==> {
                &&& change.address == protected_start(old(library).base(), *segment, page@)
                &&& change.address + change.length == protected_end(
                    old(library).base(),
                    *segment,
                    page@,
                )
                &&& change.protection == protection_of(segment.flags, page@, max_page_size as int)
            },
    {
        library.write(segment.virtual_addr, region);
        let unit: usize = page.bytes();
        let base: usize = library.base_address();
        if base > usize::MAX - segment.virtual_addr {
            return Err(LoadError::ProtectionFailed);
        }
        let first: usize = base + segment.virtual_addr;
        if first > usize::MAX - segment.mem_size {
            return Err(LoadError::ProtectionFailed);
        }
        let start: usize = page.floor(first);
        let end: usize = match page.ceil(first + segment.mem_size) {
            Some(end) => end,
            None => {
                return Err(LoadError::ProtectionFailed);
            },
        };
        let is_standard_page: bool = unit <= max_page_size;
        let protection = Protection {
            read: segment.flags.read || !is_standard_page,
            write: segment.flags.write || !is_standard_page,
            execute: segment.flags.execute || !is_standard_page,
        };
        Ok(ProtectionRequest { address: start, length: end - start, protection })
    }

    /// Patches the word at `entry` with the address that the symbol it names
    /// resolves to, plus `addend`.
    pub fn absolute_reloc(
        library: &mut AndroidLibrary,
        hooks: &HookSet,
        stubs: &StubTable,
        order: ByteOrder,
        entry: &RelocationEntry,
        addend: usize,
    )
        requires
            entry.offset + entry.rtype.word_size() <= old(library).image().len(),
            old(library).strings().contains_key(entry.index),
        ensures
            final(library).image() == with_word(
                old(library).image(),
                *entry,
                resolved(old(library).strings()[entry.index], hooks@, *stubs).wrapping_add(addend),
                order,
            ),
            final(library).image().len() == old(library).image().len(),
            final(library).base() == old(library).base(),
            final(library).symbols() == old(library).symbols(),
            final(library).strings() == old(library).strings(),
    {
        let symbol: usize = match library.symbol_name(entry.index) {
            Some(name) => Self::symbol_finder(name.as_str(), library, hooks, stubs),
            None => 0,
        };
        let value: usize = addend.wrapping_add(symbol);
        let relocated = encode_word(value as u64, entry.rtype.word_size(), order);
        library.write(entry.offset, relocated.as_slice());
    }

    /// Patches the word at `entry` with the address at which the image starts,
    /// plus `addend`.
    pub fn relative_reloc(
        library: &mut AndroidLibrary,
        order: ByteOrder,
        entry: &RelocationEntry,
        addend: usize,
    )
        requires
            entry.offset + entry.rtype.word_size() <= old(library).image().len(),
        ensures
            final(library).image() == with_word(
                old(library).image(),
                *entry,
                old(library).base().wrapping_add(addend),
                order,
            ),
            final(library).image().len() == old(library).image().len(),
            final(library).base() == old(library).base(),
            final(library).symbols() == old(library).symbols(),
            final(library).strings() == old(library).strings(),
    {
        let base: usize = library.base_address();
        let value: usize = addend.wrapping_add(base);
        let relocated = encode_word(value as u64, entry.rtype.word_size(), order);
        library.write(entry.offset, relocated.as_slice());
    }

    /// Carries out `entries` on the image, first entry first, up to the first
    /// that the loader does not support; with such an entry the load has
    /// failed, and the library is to be dropped.
    pub fn relocate(
        library: &mut AndroidLibrary,
        entries: &Vec<RelocationEntry>,
        hooks: &HookSet,
        stubs: &StubTable,
        order: ByteOrder,
    ) -> (outcome: Result<(), LoadError>)
        requires
            all_applicable(
                linkage(*old(library), hooks@, *stubs, order),
                old(library).image().len(),
                entries@,
            ),
        ensures
            outcome is Ok <==> supported_prefix(entries@) == entries@.len(),
            outcome is Ok <==> forall|i: int| 0 <= i < entries@.len() ==> supported(entries@[i]),
            outcome matches Err(error) ==> error == LoadError::UnsupportedRelocation,
            final(library).image() == relocated(
                linkage(*old(library), hooks@, *stubs, order),
                old(library).image(),
                entries@.take(supported_prefix(entries@) as int),
            ),
            final(library).image().len() == old(library).image().len(),
            final(library).base() == old(library).base(),
            final(library).symbols() == old(library).symbols(),
            final(library).strings() == old(library).strings(),
    {
        let ghost link = linkage(*old(library), hooks@, *stubs, order);
        let ghost start = old(library).image();
        let mut done: usize = 0;
        while done < entries.len()
            invariant
                done <= entries@.len(),
                forall|i: int| 0 <= i < done ==> supported(entries@[i]),
                all_applicable(link, start.len(), entries@),
                start == old(library).image(),
                link == linkage(*old(library), hooks@, *stubs, order),
                link == linkage(*library, hooks@, *stubs, order),
                library.image() == relocated(link, start, entries@.take(done as int)),
                library.image().len() == start.len(),
                library.base() == old(library).base(),
                library.symbols() == old(library).symbols(),
                library.strings() == old(library).strings(),
            decreases entries@.len() - done,
        {
            let entry: &RelocationEntry = &entries[done];
            let operation = match entry.rtype.operation() {
                Some(operation) => operation,
                None => {
                    proof {
                        lemma_supported_prefix(entries@, done as int);
                    }
                    return Err(LoadError::UnsupportedRelocation);
                },
            };
            let width: usize = entry.rtype.word_size();
            if operation.addend == AddendSource::Explicit && entry.addend.is_none() {
                proof {
                    lemma_supported_prefix(entries@, done as int);
                }
                return Err(LoadError::UnsupportedRelocation);
            }
            proof {
                lemma_supported_prefix(entries@, done + 1);
                assert(entries@.take(done + 1).drop_last() =~= entries@.take(done as int));
            }
            let addend: usize = match operation.addend {
                AddendSource::Zero => 0,
                AddendSource::InPlace => {
                    let bytes = library.read(entry.offset, width);
                    decode_word(bytes.as_slice(), order) as usize
                },
                AddendSource::Explicit => match entry.addend {
                    Some(addend) => addend,
                    None => 0,
                },
            };
            match operation.origin {
                Origin::Symbol => {
                    Self::absolute_reloc(library, hooks, stubs, order, entry, addend);
                },
                Origin::ImageBase => {
                    Self::relative_reloc(library, order, entry, addend);
                },
            }
            done = done + 1;
        }
        proof {
            lemma_supported_prefix(entries@, done as int);
        }
        Ok(())
    }
}

} // verus!
