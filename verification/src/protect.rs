//! The page arithmetic and outcome rules of changing memory protection.
//!
//! The protection calls themselves are the caller's; the library says which
//! pages they cover and what their status codes mean.
use vstd::prelude::*;
use crate::error::Error;
use crate::nearby::{round_up, is_pow2, align_up};

verus! {

/// The whole pages covering `[addr, addr + len)`: their first address and
/// their total size, for pages of `page_size` bytes.
pub fn page_range(addr: usize, len: usize, page_size: usize) -> (r: (usize, usize))
    requires
        page_size >= 1,
        addr + len + page_size - 1 <= usize::MAX,
    ensures
        r.0 == addr & !((page_size - 1) as usize),
        r.0 + r.1 == ((addr + len + page_size - 1) as usize) & !((page_size - 1) as usize),
        is_pow2(page_size) ==> r.0 == addr - addr % page_size,
        is_pow2(page_size) ==> r.0 + r.1 == align_up(addr + len, page_size as int),
        is_pow2(page_size) ==> r.0 % page_size == 0 && (r.0 + r.1) % page_size as int == 0,
        r.0 <= addr,
        addr + len <= r.0 + r.1,
{
    let m = page_size - 1;
    let start = addr & !m;
    let end = round_up(addr + len, page_size);
    proof {
        let y = (addr + len + m) as usize;
        assert(addr & !m <= addr) by (bit_vector);
        assert(y & !m == y - (y & m) && y & m <= m) by (bit_vector);
        if is_pow2(page_size) {
            crate::nearby::lemma_mask_rounds_down(addr, page_size);
            vstd::arithmetic::div_mod::lemma_fundamental_div_mod(addr as int, page_size as int);
            vstd::arithmetic::div_mod::lemma_mod_multiples_basic((addr / page_size) as int, page_size as int);
            assert(addr - addr % page_size == (addr / page_size) * page_size) by (nonlinear_arith)
                requires addr == page_size * (addr / page_size) + addr % page_size;
        }
    }
    let size = end - start;
    (start, size)
}

/// The outcome of `mprotect` (or `mach_vm_protect`) from its status code:
/// success exactly when the status is zero.
pub fn unix_protect_outcome(status: i32) -> (r: Result<(), Error>)
    ensures
        r == (if status == 0 { Ok(()) } else { Err(Error::ProtectFailed) }),
{
    if status != 0 {
        return Err(Error::ProtectFailed);
    }
    Ok(())
}

/// The outcome of `VirtualProtect` from the `BOOL` it returned and the
/// protection it reported as the previous one: failure exactly when the
/// `BOOL` is zero, else the previous protection.
pub fn windows_protect_outcome(succeeded: i32, previous: u32) -> (r: Result<u32, Error>)
    ensures
        r == (if succeeded == 0 { Err(Error::ProtectFailed) } else { Ok(previous) }),
{
    if succeeded == 0 {
        return Err(Error::ProtectFailed);
    }
    Ok(previous)
}

} // verus!
