use timely_dataplane::container::{default_capacity, BUFFER_SIZE_BYTES};

#[test]
fn default_capacity_divides_the_byte_budget() {
    assert_eq!(BUFFER_SIZE_BYTES, 8192);
    assert_eq!(default_capacity::<u8>(), 8192);
    assert_eq!(default_capacity::<u64>(), 1024);
    assert_eq!(default_capacity::<(u32, u64)>(), 512);
    assert_eq!(default_capacity::<()>(), 8192);
    assert_eq!(default_capacity::<[u8; 8192]>(), 1);
    assert_eq!(default_capacity::<[u8; 8193]>(), 1);
    assert_eq!(default_capacity::<[u8; 3000]>(), 2);
}
