//! What the loader reads of a decoded ELF file: loadable segments, dynamic
//! symbols and relocation entries.

use vstd::prelude::*;

verus! {

/// The access that a loadable segment asks for.
#[derive(Clone, Copy, Debug, PartialEq, Eq, Structural)]
pub struct SegmentFlags {
    pub read: bool,
    pub write: bool,
    pub execute: bool,
}

/// A loadable program header.
#[derive(Clone, Copy, Debug, PartialEq, Eq, Structural)]
pub struct Segment {
    /// Where the segment starts, as an offset into the image.
    pub virtual_addr: usize,
    /// How many bytes the file holds for it.
    pub file_size: usize,
    /// How many bytes it takes in memory; what exceeds `file_size` is zero.
    pub mem_size: usize,
    pub flags: SegmentFlags,
}

/// The access that the pages of a segment are given.
#[derive(Clone, Copy, Debug, PartialEq, Eq, Structural)]
pub struct Protection {
    pub read: bool,
    pub write: bool,
    pub execute: bool,
}

/// A change of page protection for the host to carry out: `length` bytes from
/// `address` on get `protection`.
#[derive(Clone, Copy, Debug, PartialEq, Eq, Structural)]
pub struct ProtectionRequest {
    pub address: usize,
    pub length: usize,
    pub protection: Protection,
}

/// The kinds of relocation of 32-bit x86.
#[derive(Clone, Copy, Debug, PartialEq, Eq, Structural)]
pub enum X86Relocation {
    /// `R_386_32`
    Direct32,
    /// `R_386_GLOB_DAT`
    GlobDat,
    /// `R_386_JMP_SLOT`
    JmpSlot,
    /// `R_386_RELATIVE`
    Relative,
    /// Any other kind.
    Other,
}

/// The kinds of relocation of x86_64.
#[allow(non_camel_case_types)]
#[derive(Clone, Copy, Debug, PartialEq, Eq, Structural)]
pub enum X86_64Relocation {
    /// `R_AMD64_64`
    Direct64,
    /// `R_AMD64_GLOB_DAT`
    GlobDat,
    /// `R_AMD64_JMP_SLOT`
    JmpSlot,
    /// `R_AMD64_RELATIVE`
    Relative,
    /// Any other kind.
    Other,
}

/// The kinds of relocation of 32-bit Arm.
#[derive(Clone, Copy, Debug, PartialEq, Eq, Structural)]
pub enum ArmRelocation {
    /// `R_ARM_ABS32`
    Abs32,
    /// `R_ARM_GLOB_DAT`
    GlobDat,
    /// `R_ARM_JUMP_SLOT`
    JumpSlot,
    /// `R_ARM_RELATIVE`
    Relative,
    /// Any other kind.
    Other,
}

/// The kinds of relocation of AArch64.
#[derive(Clone, Copy, Debug, PartialEq, Eq, Structural)]
pub enum AArch64Relocation {
    /// `R_AARCH64_ABS64`
    Abs64,
    /// `R_AARCH64_GLOB_DAT`
    GlobDat,
    /// `R_AARCH64_JUMP_SLOT`
    JumpSlot,
    /// `R_AARCH64_RELATIVE`
    Relative,
    /// Any other kind.
    Other,
}

/// The kind of a relocation entry, by architecture.
#[allow(non_camel_case_types)]
#[derive(Clone, Copy, Debug, PartialEq, Eq, Structural)]
pub enum RelocationType {
    X86(X86Relocation),
    X86_64(X86_64Relocation),
    Arm(ArmRelocation),
    AArch64(AArch64Relocation),
}

/// One entry of a relocation table.
#[derive(Clone, Copy, Debug, PartialEq, Eq, Structural)]
pub struct RelocationEntry {
    /// Where in the image the word to patch starts.
    pub offset: usize,
    /// The index, in the dynamic symbol table, of the symbol it names.
    pub index: usize,
    pub rtype: RelocationType,
    /// The addend that the entry carries, if its table has addends.
    pub addend: Option<usize>,
}

/// What a patched word is measured from.
#[derive(Clone, Copy, Debug, PartialEq, Eq, Structural)]
pub enum Origin {
    /// The address that the named symbol resolves to.
    Symbol,
    /// The address at which the image starts.
    ImageBase,
}

/// Where the addend of a relocation comes from.
#[derive(Clone, Copy, Debug, PartialEq, Eq, Structural)]
pub enum AddendSource {
    /// The addend is zero.
    Zero,
    /// The addend is the word that the image holds at the patched place.
    InPlace,
    /// The addend is the one that the entry carries.
    Explicit,
}

/// How a relocation of a supported kind is carried out.
#[derive(Clone, Copy, Debug, PartialEq, Eq, Structural)]
pub struct Operation {
    pub origin: Origin,
    pub addend: AddendSource,
}

/// Why a load failed.
#[derive(Clone, Copy, Debug, PartialEq, Eq, Structural)]
pub enum LoadError {
    /// The file could not be opened or read.
    FileRead,
    /// The file is not a well-formed ELF object.
    ElfParse,
    /// The host did not provide the memory for the image.
    AllocationFailed,
    /// The host rejected a change of page protection.
    ProtectionFailed,
    /// A relocation is of a kind that the loader does not carry out.
    UnsupportedRelocation,
}

impl RelocationType {
    /// The size in bytes of the word that a relocation of this kind patches:
    /// that of an address of its architecture.
    pub open spec fn spec_word_size(self) -> usize {
        match self {
            RelocationType::X86(_) => 4,
            RelocationType::Arm(_) => 4,
            RelocationType::X86_64(_) => 8,
            RelocationType::AArch64(_) => 8,
        }
    }

    /// How a relocation of this kind is carried out, if the loader supports
    /// the kind.
    pub open spec fn spec_operation(self) -> Option<Operation> {
        match self {
            RelocationType::X86(X86Relocation::GlobDat)
            | RelocationType::X86(X86Relocation::JmpSlot)
            | RelocationType::Arm(ArmRelocation::GlobDat)
            | RelocationType::Arm(ArmRelocation::JumpSlot) => Some(
                Operation { origin: Origin::Symbol, addend: AddendSource::Zero },
            ),
            RelocationType::X86(X86Relocation::Direct32)
            | RelocationType::Arm(ArmRelocation::Abs32) => Some(
                Operation { origin: Origin::Symbol, addend: AddendSource::InPlace },
            ),
            RelocationType::X86(X86Relocation::Relative)
            | RelocationType::Arm(ArmRelocation::Relative) => Some(
                Operation { origin: Origin::ImageBase, addend: AddendSource::InPlace },
            ),
            RelocationType::X86_64(X86_64Relocation::JmpSlot)
            | RelocationType::X86_64(X86_64Relocation::GlobDat)
            | RelocationType::X86_64(X86_64Relocation::Direct64)
            | RelocationType::AArch64(AArch64Relocation::JumpSlot)
            | RelocationType::AArch64(AArch64Relocation::GlobDat)
            | RelocationType::AArch64(AArch64Relocation::Abs64) => Some(
                Operation { origin: Origin::Symbol, addend: AddendSource::Explicit },
            ),
            RelocationType::X86_64(X86_64Relocation::Relative)
            | RelocationType::AArch64(AArch64Relocation::Relative) => Some(
                Operation { origin: Origin::ImageBase, addend: AddendSource::Explicit },
            ),
            _ => None,
        }
    }

    /// The size in bytes of the word that a relocation of this kind patches.
    #[verifier::when_used_as_spec(spec_word_size)]
    pub fn word_size(self) -> (size: usize)
        ensures
            size == self.spec_word_size(),
            size == 4 || size == 8,
    {
        match self {
            RelocationType::X86(_) | RelocationType::Arm(_) => 4,
            RelocationType::X86_64(_) | RelocationType::AArch64(_) => 8,
        }
    }

    /// How a relocation of this kind is carried out, or `None` for a kind
    /// that the loader does not support.
    #[verifier::when_used_as_spec(spec_operation)]
    pub fn operation(self) -> (operation: Option<Operation>)
        ensures
            operation == self.spec_operation(),
    {
        match self {
            RelocationType::X86(kind) => match kind {
                X86Relocation::GlobDat | X86Relocation::JmpSlot => Some(
                    Operation { origin: Origin::Symbol, addend: AddendSource::Zero },
                ),
                X86Relocation::Direct32 => Some(
                    Operation { origin: Origin::Symbol, addend: AddendSource::InPlace },
                ),
                X86Relocation::Relative => Some(
                    Operation { origin: Origin::ImageBase, addend: AddendSource::InPlace },
                ),
                X86Relocation::Other => None,
            },
            RelocationType::X86_64(kind) => match kind {
                X86_64Relocation::JmpSlot
                | X86_64Relocation::GlobDat
                | X86_64Relocation::Direct64 => Some(
                    Operation { origin: Origin::Symbol, addend: AddendSource::Explicit },
                ),
                X86_64Relocation::Relative => Some(
                    Operation { origin: Origin::ImageBase, addend: AddendSource::Explicit },
                ),
                X86_64Relocation::Other => None,
            },
            RelocationType::Arm(kind) => match kind {
                ArmRelocation::GlobDat | ArmRelocation::JumpSlot => Some(
                    Operation { origin: Origin::Symbol, addend: AddendSource::Zero },
                ),
                ArmRelocation::Abs32 => Some(
                    Operation { origin: Origin::Symbol, addend: AddendSource::InPlace },
                ),
                ArmRelocation::Relative => Some(
                    Operation { origin: Origin::ImageBase, addend: AddendSource::InPlace },
                ),
                ArmRelocation::Other => None,
            },
            RelocationType::AArch64(kind) => match kind {
                AArch64Relocation::JumpSlot
                | AArch64Relocation::GlobDat
                | AArch64Relocation::Abs64 => Some(
                    Operation { origin: Origin::Symbol, addend: AddendSource::Explicit },
                ),
                AArch64Relocation::Relative => Some(
                    Operation { origin: Origin::ImageBase, addend: AddendSource::Explicit },
                ),
                AArch64Relocation::Other => None,
            },
        }
    }
}

} // verus!
