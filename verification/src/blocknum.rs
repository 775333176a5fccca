//! 16-bit block-number arithmetic. Block numbers wrap modulo 65536: the
//! block after 65535 is 0. All protocol decisions compare block numbers only
//! through these wrapped forms.

use vstd::prelude::*;

verus! {

/// `a + b` on block numbers, wrapping modulo 65536.
pub open spec fn wrap_add(a: u16, b: u16) -> u16 {
    if a + b > u16::MAX {
        (a + b - 0x10000) as u16
    } else {
        (a + b) as u16
    }
}

/// `a - b` on block numbers, wrapping modulo 65536.
pub open spec fn wrap_sub(a: u16, b: u16) -> u16 {
    if a - b < 0 {
        (a - b + 0x10000) as u16
    } else {
        (a - b) as u16
    }
}

/// The block number standing `i` places after `base`, wrapping.
pub open spec fn wrap_offset(base: u16, i: int) -> u16 {
    (((base + i) % 0x10000 + 0x10000) % 0x10000) as u16
}

pub proof fn lemma_wrap_offset_step(base: u16, i: int)
    requires
        i >= 0,
    ensures
        wrap_offset(base, i + 1) == wrap_add(wrap_offset(base, i), 1),
{
    let m: int = 0x10000;
    let s: int = base + i;
    vstd::arithmetic::div_mod::lemma_mod_bound(s, m);
    vstd::arithmetic::div_mod::lemma_add_mod_noop(s, 1, m);
    vstd::arithmetic::div_mod::lemma_mod_twice(s, m);
    vstd::arithmetic::div_mod::lemma_small_mod(1nat, m as nat);
    vstd::arithmetic::div_mod::lemma_mod_twice(s + 1, m);
}

/// Wrapping keeps every protocol decision uniform: shifting both sides of a
/// comparison by the same amount changes nothing, so acknowledging or
/// delivering block 0 against base or expected 65535 behaves exactly as any
/// other consecutive pair of block numbers.
pub proof fn lemma_wraparound_uniform(n: u16, base: u16, k: u16)
    ensures
        wrap_sub(wrap_add(n, k), wrap_add(base, k)) == wrap_sub(n, base),
        (wrap_add(n, k) == wrap_add(wrap_add(base, k), 1)) <==> (n == wrap_add(base, 1)),
{
}

}
