//! Byte-order swapping, used to store timestamps in big endian format so that
//! lexical order of storage keys matches numeric order.
use vstd::prelude::*;

verus! {

/// Byte reversal of a 32-bit integer, as a bit-level formula.
pub open spec fn swap_bytes_u32(x: u32) -> u32 {
    ((x & 0xffu32) << 24u32) | ((x & 0xff00u32) << 8u32) | ((x >> 8u32) & 0xff00u32) | (x
        >> 24u32)
}

/// Byte reversal of a 64-bit integer, as a bit-level formula.
pub open spec fn swap_bytes_u64(x: u64) -> u64 {
    ((x & 0xffu64) << 56u64) | ((x & 0xff00u64) << 40u64) | ((x & 0xff0000u64) << 24u64) | ((x
        & 0xff000000u64) << 8u64) | ((x >> 8u64) & 0xff000000u64) | ((x >> 24u64) & 0xff0000u64)
        | ((x >> 40u64) & 0xff00u64) | (x >> 56u64)
}

/// Byte reversal of a 128-bit integer, as a bit-level formula.
pub open spec fn swap_bytes_u128(x: u128) -> u128 {
    ((x & 0xffu128) << 120u128) | ((x & 0xff00u128) << 104u128) | ((x & 0xff0000u128) << 88u128)
        | ((x & 0xff000000u128) << 72u128) | ((x & 0xff00000000u128) << 56u128) | ((x
        & 0xff0000000000u128) << 40u128) | ((x & 0xff000000000000u128) << 24u128) | ((x
        & 0xff00000000000000u128) << 8u128) | ((x >> 8u128) & 0xff00000000000000u128) | ((x
        >> 24u128) & 0xff000000000000u128) | ((x >> 40u128) & 0xff0000000000u128) | ((x >> 56u128)
        & 0xff00000000u128) | ((x >> 72u128) & 0xff000000u128) | ((x >> 88u128) & 0xff0000u128) | ((x
        >> 104u128) & 0xff00u128) | (x >> 120u128)
}

/// Reverses the byte order of a 128-bit integer. The result orders integers
/// as their little endian encodings do.
pub fn reverse_bytes_u128(x: u128) -> (r: u128)
    ensures
        r == swap_bytes_u128(x),
{
    ((x & 0xffu128) << 120u128) | ((x & 0xff00u128) << 104u128) | ((x & 0xff0000u128) << 88u128)
        | ((x & 0xff000000u128) << 72u128) | ((x & 0xff00000000u128) << 56u128) | ((x
        & 0xff0000000000u128) << 40u128) | ((x & 0xff000000000000u128) << 24u128) | ((x
        & 0xff00000000000000u128) << 8u128) | ((x >> 8u128) & 0xff00000000000000u128) | ((x
        >> 24u128) & 0xff000000000000u128) | ((x >> 40u128) & 0xff0000000000u128) | ((x >> 56u128)
        & 0xff00000000u128) | ((x >> 72u128) & 0xff000000u128) | ((x >> 88u128) & 0xff0000u128) | ((x
        >> 104u128) & 0xff00u128) | (x >> 120u128)
}

/// Reversing the byte order of a 128-bit integer is one to one: distinct
/// integers have distinct reversals.
pub proof fn lemma_swap_bytes_u128_injective(a: u128, b: u128)
    requires
        swap_bytes_u128(a) == swap_bytes_u128(b),
    ensures
        a == b,
{
    assert(forall|x: u128| #[trigger] swap_bytes_u128(swap_bytes_u128(x)) == x) by (bit_vector);
    assert(swap_bytes_u128(swap_bytes_u128(a)) == a);
    assert(swap_bytes_u128(swap_bytes_u128(b)) == b);
}

/// Reverses the byte order of a 32-bit integer.
pub fn reverse_bytes_u32(x: u32) -> (r: u32)
    ensures
        r == swap_bytes_u32(x),
{
    ((x & 0xffu32) << 24u32) | ((x & 0xff00u32) << 8u32) | ((x >> 8u32) & 0xff00u32) | (x >> 24u32)
}

/// Reverses the byte order of a 64-bit integer.
pub fn reverse_bytes_u64(x: u64) -> (r: u64)
    ensures
        r == swap_bytes_u64(x),
{
    ((x & 0xffu64) << 56u64) | ((x & 0xff00u64) << 40u64) | ((x & 0xff0000u64) << 24u64) | ((x
        & 0xff000000u64) << 8u64) | ((x >> 8u64) & 0xff000000u64) | ((x >> 24u64) & 0xff0000u64)
        | ((x >> 40u64) & 0xff00u64) | (x >> 56u64)
}

/// A type whose values can have their byte order reversed.
///
/// It can be used to store a type in big endian format and take advantage of
/// the fact that storage keys are stored in lexical order.
pub trait SwapBytes: Sized {
    /// The byte-reversed value.
    spec fn spec_swap_bytes(self) -> Self;

    /// Reverses the byte order of the value.
    fn swap_bytes(self) -> (r: Self)
        ensures
            r == self.spec_swap_bytes(),
    ;

    /// Reversing the byte order twice gives back the value.
    proof fn lemma_swap_bytes_involutive(x: Self)
        ensures
            x.spec_swap_bytes().spec_swap_bytes() == x,
    ;
}

impl SwapBytes for u32 {
    open spec fn spec_swap_bytes(self) -> u32 {
        swap_bytes_u32(self)
    }

    fn swap_bytes(self) -> (r: u32) {
        reverse_bytes_u32(self)
    }

    proof fn lemma_swap_bytes_involutive(x: u32) {
        assert(swap_bytes_u32(swap_bytes_u32(x)) == x) by (bit_vector);
    }
}

impl SwapBytes for u64 {
    open spec fn spec_swap_bytes(self) -> u64 {
        swap_bytes_u64(self)
    }

    fn swap_bytes(self) -> (r: u64) {
        reverse_bytes_u64(self)
    }

    proof fn lemma_swap_bytes_involutive(x: u64) {
        assert(swap_bytes_u64(swap_bytes_u64(x)) == x) by (bit_vector);
    }
}

/// Stores a value with swapped bytes in memory.
/// It will be in big endian format in the storage.
#[derive(Clone, Copy)]
pub struct Swapped<T: SwapBytes>(pub T);

impl<T: SwapBytes> Swapped<T> {
    /// Stores `value` with its bytes swapped.
    pub fn from(value: T) -> (r: Self)
        ensures
            r.0 == value.spec_swap_bytes(),
    {
        Swapped(value.swap_bytes())
    }

    /// Restore the non-swapped value.
    pub fn into_value(self) -> (r: T)
        ensures
            r == self.0.spec_swap_bytes(),
    {
        self.0.swap_bytes()
    }
}

/// Storing a value swapped and restoring it gives back the value.
pub proof fn lemma_swapped_round_trip<T: SwapBytes>(value: T)
    ensures
        Swapped(value.spec_swap_bytes()).0.spec_swap_bytes() == value,
{
    T::lemma_swap_bytes_involutive(value);
}

} // verus!
