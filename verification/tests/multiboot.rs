use libnedo::multiboot2::{
    checksum_for, MultibootHeader, ARCH_PROTECTED_MODE_I386, HEADER_LENGTH, MULTIBOOT2_MAGIC,
};

const MODULUS: u64 = 0x1_0000_0000;

fn field_sum(h: &MultibootHeader) -> u64 {
    h.magic as u64 + h.arch as u64 + h.length as u64 + h.checksum as u64
}

#[test]
fn standard_header_fields() {
    let h = MultibootHeader::protected_mode_i386();
    assert_eq!(h.magic, 0xe85250d6);
    assert_eq!(h.magic, MULTIBOOT2_MAGIC);
    assert_eq!(h.arch, ARCH_PROTECTED_MODE_I386);
    assert_eq!(h.length, HEADER_LENGTH);
    assert_eq!(h.length, 24);
    assert_eq!(h.checksum, 0x17ad_af12);
    assert_eq!(h.header_type, 0);
    assert_eq!(h.flags, 0);
    assert_eq!(h.size, 8);
}

#[test]
fn standard_header_sums_to_zero() {
    let h = MultibootHeader::protected_mode_i386();
    assert_eq!(field_sum(&h) % MODULUS, 0);
}

#[test]
fn checksum_balances_arbitrary_triples() {
    let triples = [
        (0u32, 0u32, 0u32),
        (1, 2, 3),
        (0xe85250d6, 0, 24),
        (0xe85250d6, 4, 64),
        (u32::MAX, u32::MAX, u32::MAX),
        (0x8000_0000, 0x8000_0000, 0),
        (0xffff_ffff, 0, 1),
    ];
    for &(magic, arch, length) in triples.iter() {
        let h = MultibootHeader::new(magic, arch, length);
        assert_eq!(h.magic, magic);
        assert_eq!(h.arch, arch);
        assert_eq!(h.length, length);
        assert_eq!(field_sum(&h) % MODULUS, 0, "triple {magic} {arch} {length}");
        assert_eq!(h.header_type, 0);
        assert_eq!(h.flags, 0);
        assert_eq!(h.size, 8);
    }
}

#[test]
fn checksum_for_exact_values() {
    assert_eq!(checksum_for(0xe85250d6, 0, 24), 0x17ad_af12);
    assert_eq!(checksum_for(0, 0, 0), 0);
    assert_eq!(checksum_for(1, 0, 0), 0xffff_ffff);
    // the three fields themselves already sum to 2^32
    assert_eq!(checksum_for(0x8000_0000, 0x8000_0000, 0), 0);
}
