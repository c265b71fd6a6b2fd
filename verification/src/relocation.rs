//! What relocation does to an image.

use crate::android_library::AndroidLibrary;
use crate::elf::{AddendSource, Origin, RelocationEntry};
use crate::image::{lemma_overwritten_frame, overwritten};
use crate::resolve::{resolved, StubTable};
use crate::word::{
    lemma_word_bytes_len, lemma_word_round_trip, word_bytes, word_limit, word_value, ByteOrder,
};
use vstd::prelude::*;

verus! {

/// What the relocations of one library are carried out against.
pub struct Linkage {
    /// The address at which the image starts.
    pub base: usize,
    /// The name of each symbol, by its index in the dynamic symbol table.
    pub names: Map<usize, Seq<char>>,
    pub hooks: Map<Seq<char>, usize>,
    pub stubs: StubTable,
    /// The byte order of the host.
    pub order: ByteOrder,
}

/// The linkage of `library` under `hooks`, `stubs` and `order`.
pub open spec fn linkage(
    library: AndroidLibrary,
    hooks: Map<Seq<char>, usize>,
    stubs: StubTable,
    order: ByteOrder,
) -> Linkage {
    Linkage { base: library.base(), names: library.strings(), hooks, stubs, order }
}

/// The word that `image` holds at `offset`, `width` bytes wide.
pub open spec fn word_at(image: Seq<u8>, offset: int, width: int, order: ByteOrder) -> nat {
    word_value(image.subrange(offset, offset + width), order)
}

/// Whether the loader carries out `entry`: its kind is a supported one, and it
/// carries the addend that its kind takes from the entry.
pub open spec fn supported(entry: RelocationEntry) -> bool {
    match entry.rtype.operation() {
        Some(operation) => operation.addend == AddendSource::Explicit ==> entry.addend is Some,
        None => false,
    }
}

/// Whether `entry` can be carried out on an image of `length` bytes: the word
/// it patches lies within the image, and the symbol it names, if it is
/// measured from one, is in the table.
pub open spec fn applicable(link: Linkage, length: nat, entry: RelocationEntry) -> bool {
    &&& entry.offset + entry.rtype.word_size() <= length
    &&& entry.rtype.operation() matches Some(operation) ==> (operation.origin == Origin::Symbol
        ==> link.names.contains_key(entry.index))
}

/// The address that the word patched by `entry` is measured from.
pub open spec fn origin_address(link: Linkage, entry: RelocationEntry) -> usize {
    match entry.rtype.operation()->Some_0.origin {
        Origin::Symbol => resolved(link.names[entry.index], link.hooks, link.stubs),
        Origin::ImageBase => link.base,
    }
}

/// The addend of `entry`, on an image that holds `image`.
pub open spec fn addend_of(link: Linkage, image: Seq<u8>, entry: RelocationEntry) -> usize {
    match entry.rtype.operation()->Some_0.addend {
        AddendSource::Zero => 0,
        AddendSource::InPlace => word_at(
            image,
            entry.offset as int,
            entry.rtype.word_size() as int,
            link.order,
        ) as usize,
        AddendSource::Explicit => entry.addend->Some_0,
    }
}

/// The value that `entry` asks for: its origin plus its addend, wrapping at
/// the end of the address space.
pub open spec fn patch_value(link: Linkage, image: Seq<u8>, entry: RelocationEntry) -> usize {
    origin_address(link, entry).wrapping_add(addend_of(link, image, entry))
}

/// The word that `entry` leaves in the image: the value that it asks for, cut
/// to the width of the word.
pub open spec fn patch_word(link: Linkage, image: Seq<u8>, entry: RelocationEntry) -> nat {
    (patch_value(link, image, entry) as nat) % word_limit(
        entry.rtype.word_size() as nat,
    )
}

/// `image` with the word that `entry` patches set to `value`.
pub open spec fn with_word(
    image: Seq<u8>,
    entry: RelocationEntry,
    value: usize,
    order: ByteOrder,
) -> Seq<u8> {
    overwritten(
        image,
        entry.offset as int,
        word_bytes(value as nat, entry.rtype.word_size() as nat, order),
    )
}

/// `image` after `entry` has been carried out.
pub open spec fn patched(link: Linkage, image: Seq<u8>, entry: RelocationEntry) -> Seq<u8> {
    with_word(image, entry, patch_value(link, image, entry), link.order)
}

/// `image` after `entries` have been carried out, first entry first.
pub open spec fn relocated(link: Linkage, image: Seq<u8>, entries: Seq<RelocationEntry>) -> Seq<u8>
    decreases entries.len(),
{
    if entries.len() == 0 {
        image
    } else {
        patched(link, relocated(link, image, entries.drop_last()), entries.last())
    }
}

/// How many entries come before the first that the loader does not carry out.
pub open spec fn supported_prefix(entries: Seq<RelocationEntry>) -> nat
    decreases entries.len(),
{
    if entries.len() == 0 || !supported(entries[0]) {
        0
    } else {
        1 + supported_prefix(entries.drop_first())
    }
}

/// Whether every entry before the first that the loader does not carry out
/// can be carried out on an image of `length` bytes.
pub open spec fn all_applicable(link: Linkage, length: nat, entries: Seq<RelocationEntry>) -> bool {
    forall|i: int|
        0 <= i < supported_prefix(entries) ==> applicable(link, length, #[trigger] entries[i])
}

/// Whether the words that two entries patch share no byte.
pub open spec fn apart(first: RelocationEntry, second: RelocationEntry) -> bool {
    ||| first.offset + first.rtype.word_size() <= second.offset
    ||| second.offset + second.rtype.word_size() <= first.offset
}

/// Where the entries stop being supported: after `count` supported entries
/// the first unsupported one lies at `count` or later, and at `count` if the
/// entry there is unsupported or there is none.
pub proof fn lemma_supported_prefix(entries: Seq<RelocationEntry>, count: int)
    requires
        0 <= count <= entries.len(),
        forall|i: int| 0 <= i < count ==> supported(entries[i]),
    ensures
        count <= supported_prefix(entries) <= entries.len(),
        count == entries.len() || !supported(entries[count]) ==> supported_prefix(entries)
            == count,
        forall|i: int| 0 <= i < supported_prefix(entries) ==> supported(entries[i]),
        supported_prefix(entries) < entries.len() ==> !supported(
            entries[supported_prefix(entries) as int],
        ),
    decreases entries.len(),
{
    if entries.len() > 0 && supported(entries[0]) {
        let rest = entries.drop_first();
        let fewer = if count == 0 {
            0
        } else {
            count - 1
        };
        lemma_supported_prefix(rest, fewer);
        assert forall|i: int| 0 <= i < supported_prefix(entries) implies supported(entries[i]) by {
            if i > 0 {
                assert(entries[i] == rest[i - 1]);
            }
        }
    }
}

/// A relocation writes within the image: the image keeps its length, and no
/// byte outside the patched word changes.
pub proof fn lemma_patched_frame(link: Linkage, image: Seq<u8>, entry: RelocationEntry)
    requires
        entry.offset + entry.rtype.word_size() <= image.len(),
    ensures
        patched(link, image, entry).len() == image.len(),
        forall|i: int|
            0 <= i < image.len() && !(entry.offset <= i < entry.offset + entry.rtype.word_size())
                ==> patched(link, image, entry)[i] == image[i],
{
    let value = patch_value(link, image, entry);
    lemma_word_bytes_len(value as nat, entry.rtype.word_size() as nat, link.order);
}

/// After a relocation the patched word holds the value that the entry asks
/// for, cut to the width of the word.
pub proof fn lemma_patched_word(link: Linkage, image: Seq<u8>, entry: RelocationEntry)
    requires
        entry.offset + entry.rtype.word_size() <= image.len(),
    ensures
        word_at(
            patched(link, image, entry),
            entry.offset as int,
            entry.rtype.word_size() as int,
            link.order,
        ) == patch_word(link, image, entry),
{
    let value = patch_value(link, image, entry) as nat;
    let width = entry.rtype.word_size() as nat;
    lemma_word_bytes_len(value, width, link.order);
    lemma_word_round_trip(value, width, link.order);
    lemma_overwritten_frame(image, entry.offset as int, word_bytes(value, width, link.order));
}

/// Relocations write within the image: it keeps its length, and a byte that
/// lies in none of the patched words keeps its value.
pub proof fn lemma_relocated_frame(link: Linkage, image: Seq<u8>, entries: Seq<RelocationEntry>)
    requires
        forall|i: int|
            0 <= i < entries.len() ==> (#[trigger] entries[i]).offset
                + entries[i].rtype.word_size() <= image.len(),
    ensures
        relocated(link, image, entries).len() == image.len(),
        forall|at: int|
            0 <= at < image.len() && (forall|i: int|
                0 <= i < entries.len() ==> !((#[trigger] entries[i]).offset <= at
                    < entries[i].offset + entries[i].rtype.word_size())) ==> relocated(
                link,
                image,
                entries,
            )[at] == image[at],
    decreases entries.len(),
{
    if entries.len() > 0 {
        let before = relocated(link, image, entries.drop_last());
        lemma_relocated_frame(link, image, entries.drop_last());
        lemma_patched_frame(link, before, entries.last());
        assert forall|at: int|
            0 <= at < image.len() && (forall|i: int|
                0 <= i < entries.len() ==> !((#[trigger] entries[i]).offset <= at
                    < entries[i].offset + entries[i].rtype.word_size())) implies relocated(
            link,
            image,
            entries,
        )[at] == image[at] by {
            let earlier = entries.drop_last();
            assert(forall|i: int|
                0 <= i < earlier.len() ==> !((#[trigger] earlier[i]).offset <= at
                    < earlier[i].offset + earlier[i].rtype.word_size()));
        }
    }
}

/// After the relocation of entries that the loader supports and that patch
/// words apart from each other, each patched word holds the value that its
/// entry asks for on the image as it was before, cut to the width of the
/// word.
pub proof fn lemma_relocated_words(
    link: Linkage,
    image: Seq<u8>,
    entries: Seq<RelocationEntry>,
    index: int,
)
    requires
        0 <= index < entries.len(),
        forall|i: int|
            0 <= i < entries.len() ==> (#[trigger] entries[i]).offset
                + entries[i].rtype.word_size() <= image.len(),
        forall|i: int| 0 <= i < entries.len() ==> supported(entries[i]),
        forall|i: int, j: int| 0 <= i < j < entries.len() ==> apart(entries[i], entries[j]),
    ensures
        word_at(
            relocated(link, image, entries),
            entries[index].offset as int,
            entries[index].rtype.word_size() as int,
            link.order,
        ) == patch_word(link, image, entries[index]),
    decreases entries.len(),
{
    let earlier = entries.drop_last();
    let last = entries.last();
    let before = relocated(link, image, earlier);
    let entry = entries[index];
    let low = entry.offset as int;
    let high = entry.offset + entry.rtype.word_size();
    lemma_relocated_frame(link, image, earlier);
    lemma_patched_frame(link, before, last);
    if index == entries.len() - 1 {
        assert forall|at: int| low <= at < high implies before[at] == image[at] by {
            assert forall|i: int| 0 <= i < earlier.len() implies !((#[trigger] earlier[i]).offset
                <= at < earlier[i].offset + earlier[i].rtype.word_size()) by {
                assert(apart(entries[i], entries[index]));
            }
        }
        assert(before.subrange(low, high) =~= image.subrange(low, high));
        lemma_patched_word(link, before, last);
    } else {
        lemma_relocated_words(link, image, earlier, index);
        assert(apart(entries[index], entries[entries.len() - 1]));
        assert(relocated(link, image, entries).subrange(low, high) =~= before.subrange(low, high));
    }
}

} // verus!
