//! Plain-value forms of the fixed-width quantities that account state is made of.

use vstd::prelude::*;

verus! {

/// A 160-bit account address, as its big-endian halves: the first four bytes
/// and the remaining sixteen. The tuple order agrees with the byte order.
pub type Address = (u32, u128);

/// A 256-bit quantity (a balance, a nonce, a storage key or a storage value),
/// as its big-endian halves: the high and the low 128 bits.
pub type Word = (u128, u128);

/// The zero word, the neutral value of every 256-bit quantity.
pub open spec fn zero_word() -> Word {
    (0u128, 0u128)
}

/// The zero address.
pub open spec fn zero_address() -> Address {
    (0u32, 0u128)
}

/// Whether `w` is the zero word.
pub fn is_zero(w: &Word) -> (r: bool)
    ensures
        r <==> *w == zero_word(),
{
    w.0 == 0 && w.1 == 0
}

} // verus!
