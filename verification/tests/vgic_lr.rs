use minivisor::vgic_lr::{
    create_list_register_entry, GICH_LR_EOI, GICH_LR_GROUP1_OFFSET, GICH_LR_HW,
    GICH_LR_PHYSICAL_ID, GICH_LR_PHYSICAL_ID_OFFSET, GICH_LR_PRIORITY_OFFSET, GICH_LR_VIRTUAL_ID,
};

const GICH_LR_STATE: u32 = 0b11 << 28;
const GICH_LR_STATE_PENDING_MASK: u32 = 0b01 << 28;
const GICH_LR_GROUP1_MASK: u32 = 1 << GICH_LR_GROUP1_OFFSET;

#[test]
fn software_interrupt_sets_eoi_and_pending_state_but_not_hw_bit() {
    let entry = create_list_register_entry(42, 1, 0xA0, None);
    assert_eq!(entry & GICH_LR_VIRTUAL_ID, 42);
    assert_eq!(entry & GICH_LR_GROUP1_MASK, GICH_LR_GROUP1_MASK);
    assert_eq!(entry & GICH_LR_STATE, GICH_LR_STATE_PENDING_MASK);
    assert_eq!(entry & GICH_LR_HW, 0);
    assert_eq!(entry & GICH_LR_EOI, GICH_LR_EOI);
}

#[test]
fn hardware_interrupt_sets_hw_bit_and_physical_id_but_not_eoi() {
    let entry = create_list_register_entry(30, 0, 0x80, Some(27));
    assert_eq!(entry & GICH_LR_VIRTUAL_ID, 30);
    assert_eq!(entry & GICH_LR_GROUP1_MASK, 0);
    assert_eq!(entry & GICH_LR_HW, GICH_LR_HW);
    assert_eq!(entry & GICH_LR_EOI, 0);
    assert_eq!(
        (entry & GICH_LR_PHYSICAL_ID) >> GICH_LR_PHYSICAL_ID_OFFSET,
        27
    );
}

#[test]
fn priority_is_truncated_to_its_top_5_bits_at_the_correct_offset() {
    let entry = create_list_register_entry(1, 0, 0xFF, None);
    assert_eq!((entry >> GICH_LR_PRIORITY_OFFSET) & 0x1F, 0x1F);
}

#[test]
fn int_id_is_masked_to_10_bits() {
    let entry = create_list_register_entry(0xFFFF_FFFF, 0, 0, None);
    assert_eq!(entry & GICH_LR_VIRTUAL_ID, GICH_LR_VIRTUAL_ID);
}

#[test]
fn list_register_value_is_exact() {
    assert_eq!(create_list_register_entry(42, 1, 0xA0, None), 0x5A08_002A);
    assert_eq!(create_list_register_entry(27, 1, 0, Some(30)), 0xD000_781B);
}
