use android_loader::page::{PageSize, MAX_PAGE_SIZE, MAX_PAGE_SIZE_AARCH64};
use android_loader::word::{decode_word, encode_word, ByteOrder};

#[test]
fn page_size_rejects_zero() {
    assert!(PageSize::new(0).is_none());
    assert_eq!(PageSize::new(4096).unwrap().bytes(), 4096);
}

#[test]
fn host_page_size_is_the_one_the_system_reports() {
    let page = PageSize::host().unwrap();
    assert_eq!(page.bytes(), region::page::size());
}

#[test]
fn target_page_limits() {
    assert_eq!(MAX_PAGE_SIZE, 4096);
    assert_eq!(MAX_PAGE_SIZE_AARCH64, 65536);
}

#[test]
fn floor_rounds_down_to_a_boundary() {
    let page = PageSize::new(4096).unwrap();
    assert_eq!(page.floor(0), 0);
    assert_eq!(page.floor(1), 0);
    assert_eq!(page.floor(4095), 0);
    assert_eq!(page.floor(4096), 4096);
    assert_eq!(page.floor(4097), 4096);
    assert_eq!(page.floor(0x12345), 0x12000);
    assert_eq!(page.floor(usize::MAX), usize::MAX - 4095);
}

#[test]
fn ceil_rounds_up_to_a_boundary() {
    let page = PageSize::new(4096).unwrap();
    assert_eq!(page.ceil(0), Some(0));
    assert_eq!(page.ceil(1), Some(4096));
    assert_eq!(page.ceil(4095), Some(4096));
    assert_eq!(page.ceil(4096), Some(4096));
    assert_eq!(page.ceil(4097), Some(8192));
    assert_eq!(page.ceil(0x12345), Some(0x13000));
}

#[test]
fn ceil_beyond_the_address_space_is_none() {
    let page = PageSize::new(4096).unwrap();
    assert_eq!(page.ceil(usize::MAX), None);
    assert_eq!(page.ceil(usize::MAX - 4094), None);
    assert_eq!(page.ceil(usize::MAX - 4095), Some(usize::MAX - 4095));
}

#[test]
fn rounding_with_sixteen_kib_pages() {
    let page = PageSize::new(16384).unwrap();
    assert_eq!(page.floor(0x5000), 0x4000);
    assert_eq!(page.ceil(0x5000), Some(0x8000));
}

#[test]
fn encode_little_endian() {
    assert_eq!(
        encode_word(0x1122334455667788, 8, ByteOrder::Little),
        vec![0x88, 0x77, 0x66, 0x55, 0x44, 0x33, 0x22, 0x11]
    );
    assert_eq!(encode_word(0xdeadbeef, 4, ByteOrder::Little), vec![0xef, 0xbe, 0xad, 0xde]);
}

#[test]
fn encode_big_endian() {
    assert_eq!(
        encode_word(0x1122334455667788, 8, ByteOrder::Big),
        vec![0x11, 0x22, 0x33, 0x44, 0x55, 0x66, 0x77, 0x88]
    );
    assert_eq!(encode_word(0xdeadbeef, 4, ByteOrder::Big), vec![0xde, 0xad, 0xbe, 0xef]);
}

#[test]
fn encode_cuts_to_the_width() {
    assert_eq!(encode_word(0x1122334455667788, 4, ByteOrder::Little), vec![0x88, 0x77, 0x66, 0x55]);
    assert_eq!(encode_word(0x1122334455667788, 4, ByteOrder::Big), vec![0x55, 0x66, 0x77, 0x88]);
    assert_eq!(encode_word(0x1234, 0, ByteOrder::Little), Vec::<u8>::new());
    assert_eq!(encode_word(0x1234, 1, ByteOrder::Big), vec![0x34]);
}

#[test]
fn decode_both_orders() {
    assert_eq!(decode_word(&[0xef, 0xbe, 0xad, 0xde], ByteOrder::Little), 0xdeadbeef);
    assert_eq!(decode_word(&[0xef, 0xbe, 0xad, 0xde], ByteOrder::Big), 0xefbeadde);
    assert_eq!(decode_word(&[], ByteOrder::Little), 0);
    assert_eq!(decode_word(&[0xff; 8], ByteOrder::Big), u64::MAX);
    assert_eq!(
        decode_word(&[0x88, 0x77, 0x66, 0x55, 0x44, 0x33, 0x22, 0x11], ByteOrder::Little),
        0x1122334455667788
    );
}

#[test]
fn words_round_trip() {
    let values: [u64; 5] = [0, 1, 0xdeadbeef, 0x0123456789abcdef, u64::MAX];
    for value in values {
        for order in [ByteOrder::Little, ByteOrder::Big] {
            let wide = encode_word(value, 8, order);
            assert_eq!(decode_word(&wide, order), value);
            let narrow = encode_word(value, 4, order);
            assert_eq!(decode_word(&narrow, order), value & 0xffff_ffff);
        }
    }
}

#[test]
fn the_order_is_read_off_the_bytes_of_one() {
    assert_eq!(ByteOrder::of_one([1, 0]), ByteOrder::Little);
    assert_eq!(ByteOrder::of_one([0, 1]), ByteOrder::Big);
    assert_eq!(ByteOrder::of_one(1u16.to_le_bytes()), ByteOrder::Little);
    assert_eq!(ByteOrder::of_one(1u16.to_be_bytes()), ByteOrder::Big);
    assert_eq!(ByteOrder::of_one(1u16.to_ne_bytes()), ByteOrder::host());
}

#[test]
fn host_order_is_the_native_one() {
    let order = ByteOrder::host();
    let value: u64 = 0x0102030405060708;
    assert_eq!(encode_word(value, 8, order), value.to_ne_bytes().to_vec());
    assert_eq!(decode_word(&value.to_ne_bytes(), order), value);
    let narrow: u32 = 0xa1b2c3d4;
    assert_eq!(encode_word(narrow as u64, 4, order), narrow.to_ne_bytes().to_vec());
    assert_eq!(u32::from_ne_bytes(encode_word(narrow as u64, 4, order).try_into().unwrap()), narrow);
}
