//! The arithmetic of the runtime's system interface: the pages that the
//! back-end allocator asks the kernel for, and the status that `exit`
//! hands to the kernel.
use vstd::arithmetic::div_mod::{lemma_fundamental_div_mod, lemma_mod_bound, lemma_mod_multiples_basic};
use vstd::arithmetic::power2::{lemma_pow2_pos, pow2};
use vstd::bits::lemma_u64_low_bits_mask_is_mod;
use vstd::prelude::*;

verus! {

/// The size of a small page, the unit in which the back-end allocator
/// asks for memory.
pub const PAGE_4K: u64 = 4096;

/// Whether `x` is a power of two.
pub open spec fn is_power_of_two(x: u64) -> bool {
    exists|k: nat| k < 64 && x as nat == pow2(k)
}

/// `addr` rounded up to a multiple of `align` (a power of two). The
/// rounded address must fit in a `u64`.
pub fn align_up(addr: u64, align: u64) -> (r: u64)
    requires
        is_power_of_two(align),
        addr + align - 1 <= u64::MAX,
    ensures
        r % align == 0,
        addr <= r < addr + align,
{
    let ghost k = choose|k: nat| k < 64 && align as nat == pow2(k);
    proof {
        lemma_pow2_pos(k);
        lemma_u64_low_bits_mask_is_mod(addr, k);
        lemma_fundamental_div_mod(addr as int, align as int);
        lemma_mod_bound(addr as int, align as int);
    }
    let align_mask = align - 1;
    assert(addr & align_mask == addr % align);
    if addr & align_mask == 0 {
        addr
    } else {
        assert((addr | align_mask) == (addr & !align_mask) + align_mask && addr & !align_mask
            == addr - (addr & align_mask)) by (bit_vector);
        let r = (addr | align_mask) + 1;
        proof {
            assert(r == align * (addr / align + 1)) by (nonlinear_arith)
                requires
                    addr == align * (addr / align) + addr % align,
                    r == addr - addr % align + align,
            ;
            lemma_mod_multiples_basic(addr / align + 1, align as int);
            assert(align * (addr / align + 1) == (addr / align + 1) * align) by (nonlinear_arith);
        }
        r
    }
}

/// The small page size is a power of two, so addresses can be aligned to it.
pub proof fn page_size_is_power_of_two()
    ensures
        is_power_of_two(PAGE_4K),
{
    vstd::arithmetic::power2::lemma2_to64();
    assert(PAGE_4K as nat == pow2(12));
}

/// How many small pages the back-end allocator asks for to serve an
/// allocation of `size` bytes: the size rounded up to whole pages.
pub fn backend_page_count(size: u64) -> (pages: u64)
    requires
        size + PAGE_4K - 1 <= u64::MAX,
    ensures
        pages == (size + PAGE_4K - 1) / PAGE_4K as int,
{
    proof {
        page_size_is_power_of_two();
    }
    let aligned = align_up(size, PAGE_4K);
    assert(aligned >> 12u64 == aligned / 4096) by (bit_vector);
    assert(aligned / 4096 == (size + 4095) / 4096) by (nonlinear_arith)
        requires
            aligned % 4096 == 0,
            size <= aligned < size + 4096,
    ;
    aligned >> 12
}

/// The exit status that `exit(code)` hands to the kernel: the bits of the
/// 32-bit code, read as unsigned and widened.
pub fn exit_status(code: i32) -> (status: u64)
    ensures
        status == (if code >= 0 {
            code as int
        } else {
            code as int + 0x1_0000_0000
        }),
{
    let status = (code as u32) as u64;
    assert(code >= 0 ==> (code as u32) as u64 == code as u64) by (bit_vector);
    assert(code < 0 ==> (code as u32) as i64 == (code as i64) + 0x1_0000_0000i64) by (bit_vector);
    status
}

/// Whether allocations are to be traced; the runtime's default answer,
/// which a program may override, is no.
pub fn debug_alloc() -> (r: bool)
    ensures
        !r,
{
    false
}

} // verus!
