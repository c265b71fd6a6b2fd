use android_loader::android_library::{AndroidLibrary, Symbol};
use android_loader::android_loader::AndroidLoader;
use android_loader::resolve::StubTable;
use android_loader::elf::{Segment, SegmentFlags};
use android_loader::hooks::HookSet;
use android_loader::names::{same_name, starts_with};
use android_loader::page::PageSize;

fn resolution_stubs() -> StubTable {
    StubTable { pthread: 0x1000, dlopen: 0x2000, dlsym: 0x3000, dlclose: 0x4000, undefined: 0x5000 }
}

fn resolution_library() -> AndroidLibrary {
    let segments = vec![Segment {
        virtual_addr: 0,
        file_size: 16,
        mem_size: 16,
        flags: SegmentFlags { read: true, write: true, execute: false },
    }];
    let symbols = vec![Symbol { name: "pthread_create".to_string(), value: 8 }];
    AndroidLoader::allocate(&segments, &symbols, &PageSize::new(4096).unwrap()).unwrap()
}

#[test]
fn pthread_stub_returns_zero() {
    assert_eq!(AndroidLoader::pthread_stub(), 0);
}

#[test]
fn the_undefined_symbol_stub_says_what_happened() {
    assert_eq!(AndroidLoader::undefined_symbol_stub(), "tried to call an undefined symbol");
}

#[test]
fn names_are_compared_by_their_characters() {
    assert!(starts_with("pthread_mutex_lock", "pthread_"));
    assert!(starts_with("pthread_", "pthread_"));
    assert!(starts_with("anything", ""));
    assert!(!starts_with("pthread", "pthread_"));
    assert!(!starts_with("qthread_join", "pthread_"));
    assert!(!starts_with("", "p"));
    assert!(same_name("dlopen", "dlopen"));
    assert!(!same_name("dlopen", "dlopen2"));
    assert!(!same_name("dlopen", "dlsym!"));
    assert!(same_name("", ""));
}

#[test]
fn pthread_names_get_the_pthread_stub() {
    let stubs = resolution_stubs();
    assert_eq!(AndroidLoader::get_libc_symbol("pthread_mutex_lock", &stubs), 0x1000);
    assert_eq!(AndroidLoader::get_libc_symbol("pthread_create", &stubs), 0x1000);
    assert_eq!(AndroidLoader::get_libc_symbol("pthread_", &stubs), 0x1000);
}

#[test]
fn dl_names_get_their_stubs() {
    let stubs = resolution_stubs();
    assert_eq!(AndroidLoader::get_libc_symbol("dlopen", &stubs), 0x2000);
    assert_eq!(AndroidLoader::get_libc_symbol("dlsym", &stubs), 0x3000);
    assert_eq!(AndroidLoader::get_libc_symbol("dlclose", &stubs), 0x4000);
}

#[test]
fn other_names_get_the_aborting_stub() {
    let stubs = resolution_stubs();
    assert_eq!(AndroidLoader::get_libc_symbol("arc4random", &stubs), 0x5000);
    assert_eq!(AndroidLoader::get_libc_symbol("pthread", &stubs), 0x5000);
    assert_eq!(AndroidLoader::get_libc_symbol("dlopen_ext", &stubs), 0x5000);
    assert_eq!(AndroidLoader::get_libc_symbol("", &stubs), 0x5000);
}

#[test]
fn a_hook_takes_precedence_over_every_stub() {
    let stubs = resolution_stubs();
    let library = resolution_library();
    let mut hooks = HookSet::new();
    hooks.insert("arc4random".to_string(), 0xaaaa);
    hooks.insert("pthread_mutex_lock".to_string(), 0xbbbb);
    hooks.insert("dlopen".to_string(), 0xcccc);
    assert_eq!(AndroidLoader::symbol_finder("arc4random", &library, &hooks, &stubs), 0xaaaa);
    assert_eq!(AndroidLoader::symbol_finder("pthread_mutex_lock", &library, &hooks, &stubs), 0xbbbb);
    assert_eq!(AndroidLoader::symbol_finder("dlopen", &library, &hooks, &stubs), 0xcccc);
}

#[test]
fn without_a_hook_the_stub_is_found() {
    let stubs = resolution_stubs();
    let library = resolution_library();
    let mut hooks = HookSet::new();
    hooks.insert("arc4random".to_string(), 0xaaaa);
    assert_eq!(AndroidLoader::symbol_finder("pthread_mutex_lock", &library, &hooks, &stubs), 0x1000);
    assert_eq!(AndroidLoader::symbol_finder("dlsym", &library, &hooks, &stubs), 0x3000);
    assert_eq!(AndroidLoader::symbol_finder("malloc", &library, &hooks, &stubs), 0x5000);
}

#[test]
fn resolution_ignores_the_symbols_of_the_library() {
    let stubs = resolution_stubs();
    let library = resolution_library();
    let hooks = HookSet::new();
    assert!(library.get_symbol("pthread_create").is_some());
    assert_eq!(AndroidLoader::symbol_finder("pthread_create", &library, &hooks, &stubs), 0x1000);
}

#[test]
fn hook_set_keeps_the_last_binding() {
    let mut hooks = HookSet::new();
    assert_eq!(hooks.get("arc4random"), None);
    hooks.insert("arc4random".to_string(), 1);
    hooks.insert("arc4random".to_string(), 2);
    assert_eq!(hooks.get("arc4random"), Some(2));
    assert_eq!(hooks.get("arc4random_buf"), None);
}

#[test]
fn dlopen_paths_are_folded_to_forward_slashes() {
    assert_eq!(AndroidLoader::fold_path(b"lib\\x86_64\\libcore.so"), b"lib/x86_64/libcore.so".to_vec());
    assert_eq!(AndroidLoader::fold_path(b"lib/x86_64/libcore.so"), b"lib/x86_64/libcore.so".to_vec());
    assert_eq!(AndroidLoader::fold_path(b"\\\\"), b"//".to_vec());
    assert_eq!(AndroidLoader::fold_path(b""), Vec::<u8>::new());
}
