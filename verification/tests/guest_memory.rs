use minivisor::guest_memory::translate_guest_physical_address;

#[test]
fn address_at_ram_start_maps_to_physical_base() {
    assert_eq!(
        translate_guest_physical_address(0x4008_0000, 0x4008_0000, 0x1000_0000, 0x1000),
        Some(0x1000_0000)
    );
}

#[test]
fn address_within_ram_window_is_offset_correctly() {
    assert_eq!(
        translate_guest_physical_address(0x4008_1234, 0x4008_0000, 0x1000_0000, 0x1_0000),
        Some(0x1000_1234)
    );
}

#[test]
fn address_at_the_last_valid_byte_is_still_in_range() {
    assert_eq!(
        translate_guest_physical_address(0x4008_0FFF, 0x4008_0000, 0x1000_0000, 0x1000),
        Some(0x1000_0FFF)
    );
}

#[test]
fn address_at_ram_end_is_out_of_range() {
    // ram_size = 0x1000 means valid addresses are [base, base + 0x1000);
    // the address exactly at the end is one byte past the last valid one.
    assert_eq!(
        translate_guest_physical_address(0x4008_1000, 0x4008_0000, 0x1000_0000, 0x1000),
        None
    );
}

#[test]
fn address_below_ram_window_is_out_of_range() {
    assert_eq!(
        translate_guest_physical_address(0x1000, 0x4008_0000, 0x1000_0000, 0x1000),
        None
    );
}
