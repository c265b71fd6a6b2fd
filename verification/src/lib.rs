//! An in-process loader for Android ELF shared objects: image allocation,
//! segment loading, symbol indexing and eager relocation.

pub mod android_library;
pub mod android_loader;
pub mod elf;
pub mod hooks;
pub mod image;
pub mod layout;
pub mod names;
pub mod page;
pub mod relocation;
pub mod resolve;
pub mod word;
