//! Ids and timestamps cross between unsigned and signed 64-bit fields: the
//! remote counts unsigned, the stores keep signed. The bits are kept; this
//! says what number they then stand for.

use vstd::prelude::*;

verus! {

/// The signed number with the bits of `n`: `n` itself while it fits, and
/// otherwise `n` less two to the sixty-fourth.
pub open spec fn signed(n: u64) -> i64 {
    if n <= i64::MAX {
        n as i64
    } else {
        (n - 0x1_0000_0000_0000_0000) as i64
    }
}

/// The unsigned number with the bits of `n`: `n` itself if it is not
/// negative, and otherwise `n` plus two to the sixty-fourth.
pub open spec fn unsigned(n: i64) -> u64 {
    if n >= 0 {
        n as u64
    } else {
        (n + 0x1_0000_0000_0000_0000) as u64
    }
}

/// Reads the bits of an unsigned number as a signed one.
pub fn to_signed(n: u64) -> (s: i64)
    ensures
        s == signed(n),
{
    assert(n <= 0x7fff_ffff_ffff_ffffu64 ==> (n as i64) as int == n as int) by (bit_vector);
    assert(n > 0x7fff_ffff_ffff_ffffu64 ==> (n as i64) as int == n as int
        - 0x1_0000_0000_0000_0000) by (bit_vector);
    n as i64
}

/// Reads the bits of a signed number as an unsigned one.
pub fn to_unsigned(n: i64) -> (u: u64)
    ensures
        u == unsigned(n),
{
    assert(n >= 0 ==> (n as u64) as int == n as int) by (bit_vector);
    assert(n < 0 ==> (n as u64) as int == n as int + 0x1_0000_0000_0000_0000) by (bit_vector);
    n as u64
}

/// Nothing is lost on the way: a number read as signed and back as unsigned
/// is itself again, and so the other way round.
pub proof fn law_bits_are_kept(n: u64, m: i64)
    ensures
        unsigned(signed(n)) == n,
        signed(unsigned(m)) == m,
{
}

} // verus!
