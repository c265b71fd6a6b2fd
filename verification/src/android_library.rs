//! A loaded library: its memory image and the indexes of its dynamic symbols.

use crate::elf::LoadError;
use crate::image::{mapped_address, mapped_byte, mapped_bytes, mapped_length, write_mapped};
use std::collections::HashMap;
use vstd::hash_map::StringHashMap;
use vstd::prelude::*;

verus! {

broadcast use vstd::std_specs::hash::group_hash_axioms;

/// A dynamic symbol: its name and its value, an offset into the image.
#[derive(Debug)]
pub struct Symbol {
    pub name: String,
    pub value: usize,
}

/// The value of each name in a dynamic symbol table. Of two entries with one
/// name the later one counts.
pub open spec fn symbol_table(entries: Seq<Symbol>) -> Map<Seq<char>, usize>
    decreases entries.len(),
{
    if entries.len() == 0 {
        Map::empty()
    } else {
        symbol_table(entries.drop_last()).insert(entries.last().name@, entries.last().value)
    }
}

/// The name of each index of a dynamic symbol table.
pub open spec fn string_table(entries: Seq<Symbol>) -> Map<usize, Seq<char>> {
    Map::new(|index: usize| index < entries.len(), |index: usize| entries[index as int].name@)
}

/// A library in memory.
pub struct AndroidLibrary {
    memory_map: memmap2::MmapMut,
    base: usize,
    symbols: StringHashMap<Symbol>,
    strings: HashMap<usize, String>,
    count: usize,
}

impl AndroidLibrary {
    /// Each symbol is filed under its own name, and the indexes that have a
    /// name are those below the number of entries of the table.
    #[verifier::type_invariant]
    closed spec fn well_formed(self) -> bool {
        &&& forall|name: Seq<char>| #[trigger]
            self.symbols@.contains_key(name) ==> self.symbols@[name].name@ == name
        &&& forall|index: usize| #[trigger]
            self.strings@.contains_key(index) <==> index < self.count
    }

    /// The bytes of the image.
    pub closed spec fn image(&self) -> Seq<u8> {
        mapped_bytes(self.memory_map)
    }

    /// The address at which the image starts.
    pub closed spec fn base(&self) -> usize {
        self.base
    }

    /// The value of each symbol, by name.
    pub closed spec fn symbols(&self) -> Map<Seq<char>, usize> {
        Map::new(
            |name: Seq<char>| self.symbols@.contains_key(name),
            |name: Seq<char>| self.symbols@[name].value,
        )
    }

    /// The name of each symbol, by its index in the dynamic symbol table.
    pub closed spec fn strings(&self) -> Map<usize, Seq<char>> {
        Map::new(
            |index: usize| self.strings@.contains_key(index),
            |index: usize| self.strings@[index]@,
        )
    }

    /// The address that `offset` into an image at `base` has; it wraps at
    /// the end of the address space.
    pub open spec fn address_at(base: usize, offset: usize) -> usize {
        base.wrapping_add(offset)
    }

    /// Makes a library of what the host answered to the request for an image,
    /// and of the dynamic symbols in the order of their table.
    pub fn from_mapping(mapping: Option<memmap2::MmapMut>, entries: &Vec<Symbol>) -> (library:
        Result<AndroidLibrary, LoadError>)
        ensures
            mapping is None <==> library is Err,
            library matches Err(error) ==> error == LoadError::AllocationFailed,
            library matches Ok(made) ==> {
                &&& made.image() == mapped_bytes(mapping->Some_0)
                &&& made.symbols() == symbol_table(entries@)
                &&& made.strings() == string_table(entries@)
            },
    {
        let memory_map = match mapping {
            Some(memory_map) => memory_map,
            None => {
                return Err(LoadError::AllocationFailed);
            },
        };
        let base = mapped_address(&memory_map);
        let mut symbols: StringHashMap<Symbol> = StringHashMap::new();
        let mut strings: HashMap<usize, String> = HashMap::new();
        let mut index: usize = 0;
        while index < entries.len()
            invariant
                index <= entries@.len(),
                forall|name: Seq<char>| #[trigger]
                    symbols@.contains_key(name) <==> symbol_table(
                        entries@.take(index as int),
                    ).contains_key(name),
                forall|name: Seq<char>| #[trigger]
                    symbols@.contains_key(name) ==> symbols@[name].value == symbol_table(
                        entries@.take(index as int),
                    )[name],
                forall|name: Seq<char>| #[trigger]
                    symbols@.contains_key(name) ==> symbols@[name].name@ == name,
                forall|at: usize| #[trigger] strings@.contains_key(at) <==> at < index,
                forall|at: usize|
                    at < index ==> (#[trigger] strings@[at])@ == entries@[at as int].name@,
            decreases entries@.len() - index,
        {
            let entry = &entries[index];
            proof {
                assert(entries@.take(index + 1).drop_last() =~= entries@.take(index as int));
            }
            symbols.insert(
                entry.name.clone(),
                Symbol { name: entry.name.clone(), value: entry.value },
            );
            strings.insert(index, entry.name.clone());
            index = index + 1;
        }
        let library = AndroidLibrary { memory_map, base, symbols, strings, count: index };
        proof {
            assert(entries@.take(index as int) =~= entries@);
        }
        Ok(library)
    }

    /// The symbol `name`, if the library has one.
    pub fn symbol(&self, name: &str) -> (found: Option<&Symbol>)
        ensures
            self.symbols().contains_key(name@) <==> found is Some,
            found matches Some(symbol) ==> symbol.name@ == name@ && symbol.value
                == self.symbols()[name@],
    {
        proof {
            use_type_invariant(self);
        }
        self.symbols.get(name)
    }

    /// The address of the symbol `name`, if the library has one: the value
    /// of the symbol, taken as an offset from the start of the image.
    pub fn get_symbol(&self, name: &str) -> (address: Option<usize>)
        ensures
            address == (if self.symbols().contains_key(name@) {
                Some(Self::address_at(self.base(), self.symbols()[name@]))
            } else {
                None
            }),
    {
        match self.symbol(name) {
            Some(symbol) => Some(self.base.wrapping_add(symbol.value)),
            None => None,
        }
    }

    /// The name of the symbol at `index` of the dynamic symbol table, if the
    /// table reaches that far.
    pub fn symbol_name(&self, index: usize) -> (name: Option<&String>)
        ensures
            self.strings().contains_key(index) <==> name is Some,
            name matches Some(found) ==> found@ == self.strings()[index],
    {
        self.strings.get(&index)
    }

    /// The number of entries of the dynamic symbol table: the indexes below
    /// it, and no others, have a name.
    pub fn symbol_count(&self) -> (count: usize)
        ensures
            forall|index: usize| self.strings().contains_key(index) <==> index < count,
    {
        proof {
            use_type_invariant(self);
        }
        self.count
    }

    /// The address at which the image starts.
    pub fn base_address(&self) -> (address: usize)
        ensures
            address == self.base(),
    {
        self.base
    }

    /// The length of the image in bytes.
    pub fn image_len(&self) -> (length: usize)
        ensures
            length == self.image().len(),
    {
        mapped_length(&self.memory_map)
    }

    /// The `length` bytes of the image from `offset` on.
    pub fn read(&self, offset: usize, length: usize) -> (bytes: Vec<u8>)
        requires
            offset + length <= self.image().len(),
        ensures
            bytes@ == self.image().subrange(offset as int, offset + length),
    {
        let total: usize = mapped_length(&self.memory_map);
        let mut bytes: Vec<u8> = Vec::new();
        let mut done: usize = 0;
        while done < length
            invariant
                done <= length,
                offset + length <= self.image().len(),
                total == self.image().len(),
                bytes@ == self.image().subrange(offset as int, offset + done),
            decreases length - done,
        {
            bytes.push(mapped_byte(&self.memory_map, offset + done));
            done = done + 1;
        }
        bytes
    }

    /// Writes `data` into the image from `offset` on. Nothing else changes.
    pub(crate) fn write(&mut self, offset: usize, data: &[u8])
        requires
            offset + data@.len() <= old(self).image().len(),
        ensures
            final(self).image() == crate::image::overwritten(
                old(self).image(),
                offset as int,
                data@,
            ),
            final(self).image().len() == old(self).image().len(),
            final(self).base() == old(self).base(),
            final(self).symbols() == old(self).symbols(),
            final(self).strings() == old(self).strings(),
    {
        proof {
            use_type_invariant(&*self);
        }
        write_mapped(&mut self.memory_map, offset, data);
    }
}

/// The names of a symbol table are those of its entries.
pub proof fn lemma_symbol_table_names(entries: Seq<Symbol>, name: Seq<char>)
    ensures
        symbol_table(entries).contains_key(name) <==> exists|i: int|
            0 <= i < entries.len() && (#[trigger] entries[i]).name@ == name,
    decreases entries.len(),
{
    if entries.len() > 0 {
        let earlier = entries.drop_last();
        lemma_symbol_table_names(earlier, name);
        if exists|i: int| 0 <= i < entries.len() && (#[trigger] entries[i]).name@ == name {
            let i = choose|i: int| 0 <= i < entries.len() && (#[trigger] entries[i]).name@ == name;
            if i < entries.len() - 1 {
                assert(earlier[i].name@ == name);
            }
        }
    }
}

/// A symbol table gives each name the value of the last entry of that name:
/// an entry that no later entry shares its name with is found under its name,
/// with its own value.
pub proof fn lemma_symbol_table_value(entries: Seq<Symbol>, index: int)
    requires
        0 <= index < entries.len(),
        forall|later: int|
            index < later < entries.len() ==> (#[trigger] entries[later]).name@
                != entries[index].name@,
    ensures
        symbol_table(entries).contains_key(entries[index].name@),
        symbol_table(entries)[entries[index].name@] == entries[index].value,
    decreases entries.len(),
{
    if index < entries.len() - 1 {
        let earlier = entries.drop_last();
        lemma_symbol_table_value(earlier, index);
    }
}

/// Each index of the dynamic symbol table has the name of its entry.
pub proof fn lemma_string_table_name(entries: Seq<Symbol>, index: usize)
    requires
        index < entries.len(),
    ensures
        string_table(entries).contains_key(index),
        string_table(entries)[index] == entries[index as int].name@,
{
}

} // verus!
