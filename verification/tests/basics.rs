use minivisor::bits::read_le;
use minivisor::cpu::{
    advance_elr_el2, get_currentel, get_daif_and_disable_irq_fiq, get_dcache_line_size,
    get_icache_line_size, mpidr_to_affinity, CacheLines,
};
use minivisor::device::RegisterOp;
use minivisor::lock::Mutex;
use minivisor::psci::{check_psci_version, cpu_on, cpu_on_call, PsciErrorCodes};
use minivisor::serial::Serial;
use minivisor::text::{is_valid_utf8, print_bytes, split_whitespace, str_to_usize};
use minivisor::timer::{deadline, deadline_passed};

#[test]
fn numbers_are_read_least_significant_byte_first() {
    assert_eq!(read_le(&[0xFF, 0x55, 0xAA], 1, 2), 0xAA55);
    assert_eq!(read_le(&[1, 2, 3, 4, 5, 6, 7, 8], 0, 8), 0x0807_0605_0403_0201);
}

#[test]
fn affinity_leaves_out_the_two_flags() {
    assert_eq!(mpidr_to_affinity(0x8000_0003), 3);
    assert_eq!(mpidr_to_affinity(0xC000_0101), 0x101);
    assert_eq!(mpidr_to_affinity(0x1_0000_0002), 0x1_0000_0002);
}

#[test]
fn system_register_fields() {
    assert_eq!(get_currentel(8), 2);
    assert_eq!(advance_elr_el2(0x4008_0000), 0x4008_0004);
    assert_eq!(get_daif_and_disable_irq_fiq(0x300), 0x3C0);
    assert_eq!(get_dcache_line_size(0x8444_C004), 64);
    assert_eq!(get_icache_line_size(0x8444_C004), 64);
    assert_eq!(get_dcache_line_size(0x000F_0000), 0x2_0000);
}

#[test]
fn cache_lines_cover_a_range() {
    let mut lines = CacheLines::new(0x1030, 0x60, 0x40);
    assert_eq!(lines.next_line(), Some(0x1000));
    assert_eq!(lines.next_line(), Some(0x1040));
    assert_eq!(lines.next_line(), Some(0x1080));
    assert_eq!(lines.next_line(), None);
    let mut none = CacheLines::new(0x1000, 0, 0x40);
    assert_eq!(none.next_line(), None);
    let mut last = CacheLines::new(u64::MAX - 0x10, 0x100, 0x40);
    assert_eq!(last.next_line(), Some(u64::MAX - 0x3F));
    assert_eq!(last.next_line(), None);
}

#[test]
fn register_accesses() {
    let write = RegisterOp::Write { address: 0x100, value: 7 };
    assert_eq!((write.address(), write.reads(), write.apply(0xFF)), (0x100, false, 7));
    let modify = RegisterOp::Modify { address: 0x104, clear: 0xF0, set: 0x30 };
    assert_eq!((modify.address(), modify.reads(), modify.apply(0xFF)), (0x104, true, 0x3F));
}

#[test]
fn tickets_are_served_in_the_order_they_are_drawn() {
    let mut mutex = Mutex::new(5u32);
    let first = mutex.draw_ticket();
    let second = mutex.draw_ticket();
    assert!(mutex.lock(second, 0x3C0).is_none());
    let guard = mutex.lock(first, 0x300).unwrap();
    assert_eq!(mutex.release(guard), 0x300);
    let guard = mutex.lock(second, 0x3C0).unwrap();
    assert_eq!(mutex.release(guard), 0x3C0);
}

#[test]
fn psci_results() {
    assert_eq!(check_psci_version(0x1_0001), Ok((1, 1)));
    assert_eq!(check_psci_version(0xFFFF_FFFF), Err(PsciErrorCodes::NotSupported));
    assert_eq!(
        check_psci_version(0xFFFF_FFFF_FFFF_FFFF),
        Err(PsciErrorCodes::NotSupported)
    );
    assert_eq!(cpu_on_call(1, 0x8000, 0x9000), [0xC400_0003, 1, 0x8000, 0x9000]);
    assert_eq!(cpu_on(0), Ok(()));
    let codes = [
        (1u64, PsciErrorCodes::NotSupported),
        (2, PsciErrorCodes::InvalidParameters),
        (3, PsciErrorCodes::Denied),
        (4, PsciErrorCodes::AlreadyOn),
        (5, PsciErrorCodes::OnPending),
        (6, PsciErrorCodes::InternalFailure),
        (7, PsciErrorCodes::NotPresent),
        (8, PsciErrorCodes::Disabled),
        (9, PsciErrorCodes::InvalidAddress),
        (10, PsciErrorCodes::Unknown),
    ];
    for (n, code) in codes {
        assert_eq!(cpu_on(0u64.wrapping_sub(n)), Err(code));
        assert_eq!(cpu_on(0x1_0000_0000 - n), Err(code));
    }
}

#[test]
fn line_feeds_get_carriage_returns() {
    assert_eq!(Serial::new(true).write_str(b"a\nb\n").unwrap(), b"a\r\nb\r\n");
    assert!(Serial::new(false).write_str(b"a").is_err());
}

#[test]
fn utf8_is_recognised() {
    assert!(is_valid_utf8(b"boot"));
    assert!(is_valid_utf8("\u{E9}\u{20AC}\u{1F600}".as_bytes()));
    assert!(!is_valid_utf8(&[0xC0, 0x80]));
    assert!(!is_valid_utf8(&[0xED, 0xA0, 0x80]));
    assert!(!is_valid_utf8(&[0xF4, 0x90, 0x80, 0x80]));
    assert!(!is_valid_utf8(&[0xE2, 0x82]));
}

#[test]
fn words_are_split_at_white_space() {
    assert_eq!(
        split_whitespace("  switch\t1\u{3000}x ".as_bytes()),
        vec![b"switch".to_vec(), b"1".to_vec(), b"x".to_vec()]
    );
    assert!(split_whitespace(b" \t ").is_empty());
}

#[test]
fn bytes_that_are_no_text_are_printed_one_by_one() {
    assert_eq!(print_bytes("\u{E9}".as_bytes()), "\u{E9}".as_bytes());
    assert_eq!(print_bytes(&[0x41, 0xE9]), "A\u{E9}".as_bytes());
}

#[test]
fn numbers_are_hexadecimal_by_default() {
    assert_eq!(str_to_usize(b"0x00080000"), Some(0x8_0000));
    assert_eq!(str_to_usize(b"3af02bb0"), Some(0x3AF0_2BB0));
    assert_eq!(str_to_usize(b"0b101"), Some(5));
    assert_eq!(str_to_usize(b"0o17"), Some(15));
    assert_eq!(str_to_usize(b"10"), Some(16));
    assert_eq!(str_to_usize(b"+1F"), Some(0x1F));
    assert_eq!(str_to_usize(b"0x+1"), Some(1));
    assert_eq!(str_to_usize(b"FFFFFFFFFFFFFFFF"), Some(usize::MAX));
    assert_eq!(str_to_usize(b"10000000000000000"), None);
    assert_eq!(str_to_usize(b"0b2"), None);
    assert_eq!(str_to_usize(b"0x"), None);
    assert_eq!(str_to_usize(b"+"), None);
    assert_eq!(str_to_usize(b"-1"), None);
    assert_eq!(str_to_usize(b"++1"), None);
    assert_eq!(str_to_usize(b""), None);
    assert_eq!(str_to_usize(b"xyz"), None);
}

#[test]
fn deadlines_pass() {
    let end = deadline(1000, 54_000_000, 100);
    assert_eq!(end, 54_100);
    assert!(!deadline_passed(end, 54_099));
    assert!(deadline_passed(end, 54_100));
    let wrapped = deadline(1000, 54_000_000, u64::MAX - 10);
    assert!(!deadline_passed(wrapped, u64::MAX));
    assert!(deadline_passed(wrapped, 54_000));
}
