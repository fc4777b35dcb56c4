//! The boot-protocol header that an external loader scans for at the start
//! of the kernel image.
//!
//! The loader accepts the image only if the first four 32-bit fields sum to
//! zero modulo 2^32; the checksum field is therefore computed as the
//! two's-complement negation of the sum of the other three fields. The
//! header ends with a terminating tag (type 0, flags 0, size 8).

use vstd::prelude::*;

verus! {

/// Magic number the loader scans for at the start of the header.
pub const MULTIBOOT2_MAGIC: u32 = 0xe85250d6;

/// Architecture identifier for 32-bit protected mode on i386.
pub const ARCH_PROTECTED_MODE_I386: u32 = 0;

/// Total length in bytes of the header as laid out for the loader:
/// four 32-bit fields, then the terminating tag (two 16-bit fields and
/// one 32-bit field).
pub const HEADER_LENGTH: u32 = 24;

/// One past the largest value a 32-bit field can hold; the modulus of the
/// loader's checksum arithmetic.
pub const FIELD_MODULUS: u64 = 0x1_0000_0000;

/// The self-describing header consumed by the external boot loader: a magic
/// number, an architecture identifier, the total header length, a checksum
/// that makes the first four fields sum to zero modulo 2^32, and the
/// terminating tag.
pub struct MultibootHeader {
    pub magic: u32,
    pub arch: u32,
    pub length: u32,
    pub checksum: u32,
    pub header_type: u16,
    pub flags: u16,
    pub size: u32,
}

/// The checksum that balances the three leading fields: the two's-complement
/// negation of their sum, reduced modulo 2^32.
pub open spec fn spec_checksum(magic: u32, arch: u32, length: u32) -> u32 {
    (((FIELD_MODULUS as int) - (magic + arch + length) % (FIELD_MODULUS as int))
        % (FIELD_MODULUS as int)) as u32
}

impl MultibootHeader {
    /// The loader's scan contract on the four leading fields: they sum to
    /// zero modulo 2^32.
    pub open spec fn zero_sum(self) -> bool {
        (self.magic + self.arch + self.length + self.checksum) % (FIELD_MODULUS as int) == 0
    }

    /// The terminating tag the loader expects after the fixed fields.
    pub open spec fn end_tag_valid(self) -> bool {
        self.header_type == 0u16 && self.flags == 0u16 && self.size == 8u32
    }

    /// Build a header for the given (magic, architecture, length) triple,
    /// with the checksum that balances the other three fields and the
    /// terminating tag filled in.
    pub fn new(magic: u32, arch: u32, length: u32) -> (h: Self)
        ensures
            h.magic == magic,
            h.arch == arch,
            h.length == length,
            h.checksum == spec_checksum(magic, arch, length),
            h.zero_sum(),
            h.end_tag_valid(),
    {
        let checksum = checksum_for(magic, arch, length);
        proof {
            lemma_checksum_balances(magic, arch, length);
        }
        MultibootHeader {
            magic,
            arch,
            length,
            checksum,
            header_type: 0,
            flags: 0,
            size: 8,
        }
    }

    /// The header this kernel actually ships: multiboot2 magic, protected
    /// mode i386, and the fixed header length.
    pub fn protected_mode_i386() -> (h: Self)
        ensures
            h.magic == MULTIBOOT2_MAGIC,
            h.arch == ARCH_PROTECTED_MODE_I386,
            h.length == HEADER_LENGTH,
            h.zero_sum(),
            h.end_tag_valid(),
    {
        Self::new(MULTIBOOT2_MAGIC, ARCH_PROTECTED_MODE_I386, HEADER_LENGTH)
    }
}

/// Compute the checksum that balances the three leading fields.
pub fn checksum_for(magic: u32, arch: u32, length: u32) -> (c: u32)
    ensures
        c == spec_checksum(magic, arch, length),
{
    let sum: u64 = magic as u64 + arch as u64 + length as u64;
    let folded: u64 = sum % FIELD_MODULUS;
    let c: u64 = (FIELD_MODULUS - folded) % FIELD_MODULUS;
    c as u32
}

/// For every (magic, architecture, length) triple, the computed checksum
/// makes the four fields sum to zero modulo 2^32.
pub proof fn lemma_checksum_balances(magic: u32, arch: u32, length: u32)
    ensures
        (magic + arch + length + spec_checksum(magic, arch, length)) % (FIELD_MODULUS as int)
            == 0,
{
    let m = FIELD_MODULUS as int;
    let s = magic + arch + length;
    let c = spec_checksum(magic, arch, length) as int;
    assert(c == (m - s % m) % m);
    assert((s + c) % m == 0) by (nonlinear_arith)
        requires
            m == 0x1_0000_0000,
            0 <= s < 3 * m,
            c == (m - s % m) % m,
    ;
}

} // verus!
