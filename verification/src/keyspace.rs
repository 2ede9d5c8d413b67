//! Mapping of coordinate vectors to one-dimensional space keys by bit
//! interleaving (a Z-order curve).
use vstd::arithmetic::div_mod::{
    lemma_add_mod_noop,
    lemma_fundamental_div_mod_converse,
    lemma_mul_mod_noop_right,
};
use vstd::prelude::*;

use crate::errors::{CoreError, CoreResult};
use crate::text::{concat_decimal, decimal};

verus! {

/// Maps a coordinate vector to a single key.
pub trait SpaceKeyMapper {
    /// The inputs on which `encode` is defined (it panics on the others).
    spec fn accepts(&self, coordinates: Seq<u32>) -> bool;

    fn encode(&self, coordinates: &[u32]) -> CoreResult<u128>
        requires
            self.accepts(coordinates@),
    ;
}

#[derive(Debug, Clone, Copy, PartialEq, Eq, Structural)]
pub struct InterleavedKeyMapper {
    pub bits_per_dimension: u8,
}

/// 2^128, the number of distinct 128-bit keys.
pub open spec fn key_space_size() -> int {
    0x1_0000_0000_0000_0000_0000_0000_0000_0000int
}

/// Bit `b` of coordinate `c` (0 is the least significant bit).
pub open spec fn coord_bit(c: u32, b: u32) -> u8 {
    ((c >> b) & 1u32) as u8
}

/// The bits a key is built from, most significant first: for each bit
/// position from the highest to the lowest, that bit of every coordinate in
/// order.
pub open spec fn interleaved_stream(coords: Seq<u32>, bits: nat) -> Seq<u8> {
    Seq::new(
        coords.len() * bits,
        |t: int| coord_bit(coords[t % coords.len() as int], (bits - 1 - t / coords.len() as int) as u32),
    )
}

/// The number whose binary digits, most significant first, are `s`.
pub open spec fn binary_value(s: Seq<u8>) -> int
    decreases s.len(),
{
    if s.len() == 0 {
        0
    } else {
        2 * binary_value(s.drop_last()) + s.last()
    }
}

/// Number of key bits an encoding of `coords` needs, as the mapper computes
/// it in 32-bit arithmetic.
pub open spec fn needed_bits(coords: Seq<u32>, bits: u8) -> int {
    (coords.len() as u32) * bits
}

/// Outcome of encoding `coords` with `bits` bits per dimension.
pub open spec fn encoding_outcome(coords: Seq<u32>, bits: u8) -> Result<u128, Seq<char>> {
    if coords.len() == 0 {
        Err("cannot encode empty coordinate vector"@)
    } else if needed_bits(coords, bits) > 128 {
        Err("encoded key needs "@ + decimal(needed_bits(coords, bits) as nat) + " bits, exceeds u128"@)
    } else {
        Ok((binary_value(interleaved_stream(coords, bits as nat)) % key_space_size()) as u128)
    }
}

impl InterleavedKeyMapper {
    pub fn new(bits_per_dimension: u8) -> (r: CoreResult<Self>)
        ensures
            (1 <= bits_per_dimension <= 32) ==> r == Ok::<Self, CoreError>(
                InterleavedKeyMapper { bits_per_dimension },
            ),
            !(1 <= bits_per_dimension <= 32) ==> (r matches Err(CoreError::InvalidDimension(m))
                && m@ == "bits_per_dimension must be in 1..=32"@),
    {
        if bits_per_dimension == 0 || bits_per_dimension > 32 {
            return Err(
                CoreError::InvalidDimension(String::from_str("bits_per_dimension must be in 1..=32")),
            );
        }
        Ok(Self { bits_per_dimension })
    }
}

/// Appending one bit to a bit string doubles its value and adds the bit,
/// also modulo 2^128.
proof fn lemma_append_bit_mod(s: Seq<u8>, v: u8, key: int)
    requires
        key == binary_value(s) % key_space_size(),
    ensures
        binary_value(s.push(v)) % key_space_size() == (2 * key + v) % key_space_size(),
{
    let m = key_space_size();
    assert(s.push(v).drop_last() =~= s);
    assert(binary_value(s.push(v)) == 2 * binary_value(s) + v);
    lemma_mul_mod_noop_right(2, binary_value(s), m);
    lemma_add_mod_noop(2 * binary_value(s), v as int, m);
    lemma_add_mod_noop(2 * key, v as int, m);
    assert((2 * key) % m == (2 * binary_value(s)) % m);
    assert((v as int) % m == v);
}

/// `(2 * key + v) mod 2^128` computed without leaving 128 bits.
fn shift_in_bit(key: u128, v: u128) -> (r: u128)
    requires
        v <= 1,
    ensures
        r == (2 * key + v) % key_space_size(),
{
    let ghost m: int = key_space_size();
    if key >= 0x8000_0000_0000_0000_0000_0000_0000_0000u128 {
        let r = (key - 0x8000_0000_0000_0000_0000_0000_0000_0000u128) * 2 + v;
        proof {
            lemma_fundamental_div_mod_converse(2 * key + v, m, 1, r as int);
        }
        r
    } else {
        let r = key * 2 + v;
        proof {
            lemma_fundamental_div_mod_converse(2 * key + v, m, 0, r as int);
        }
        r
    }
}

impl SpaceKeyMapper for InterleavedKeyMapper {
    /// Shifting a 32-bit coordinate by 32 or more bits, or a bit count that
    /// overflows 32 bits, would panic.
    open spec fn accepts(&self, coordinates: Seq<u32>) -> bool {
        &&& self.bits_per_dimension <= 32
        &&& needed_bits(coordinates, self.bits_per_dimension) <= u32::MAX
    }

    fn encode(&self, coordinates: &[u32]) -> (r: CoreResult<u128>)
        ensures
            match (r, encoding_outcome(coordinates@, self.bits_per_dimension)) {
                (Ok(k1), Ok(k2)) => k1 == k2,
                (Err(CoreError::InvalidDimension(m)), Err(t)) => m@ == t,
                _ => false,
            },
    {
        let n = coordinates.len();
        if n == 0 {
            return Err(
                CoreError::InvalidDimension(
                    String::from_str("cannot encode empty coordinate vector"),
                ),
            );
        }
        let n32 = n as u32;
        let total_bits: u32 = n32 * self.bits_per_dimension as u32;
        if total_bits > 128 {
            let mut m = concat_decimal("encoded key needs ", total_bits as u64);
            m.append(" bits, exceeds u128");
            return Err(CoreError::InvalidDimension(m));
        }
        let bits: u32 = self.bits_per_dimension as u32;
        let ghost stream = interleaved_stream(coordinates@, bits as nat);
        let ghost nn = n as int;
        let mut key: u128 = 0;
        let mut j: u32 = 0;
        assert(stream.take(0) =~= Seq::<u8>::empty());
        while j < bits
            invariant
                j <= bits,
                bits <= 32,
                n == coordinates@.len(),
                nn == n,
                n > 0,
                stream == interleaved_stream(coordinates@, bits as nat),
                key as int == binary_value(stream.take(j * nn)) % key_space_size(),
            decreases bits - j,
        {
            let bit: u32 = bits - 1 - j;
            let mut i: usize = 0;
            while i < n
                invariant
                    j < bits,
                    bits <= 32,
                    bit == bits - 1 - j,
                    i <= n,
                    n == coordinates@.len(),
                    nn == n,
                    n > 0,
                    stream == interleaved_stream(coordinates@, bits as nat),
                    key as int == binary_value(stream.take(j * nn + i)) % key_space_size(),
                decreases n - i,
            {
                let c = coordinates[i];
                let v8: u32 = (c >> bit) & 1u32;
                assert(v8 <= 1) by (bit_vector)
                    requires
                        v8 == (c >> bit) & 1u32,
                ;
                let v = v8 as u128;
                proof {
                    let t = j * nn + i;
                    assert(t < nn * bits) by (nonlinear_arith)
                        requires
                            t == j * nn + i,
                            i < nn,
                            j < bits,
                    ;
                    lemma_fundamental_div_mod_converse(t, nn, j as int, i as int);
                    assert(stream[t] == coord_bit(c, bit));
                    assert(stream.take(t).push(stream[t]) =~= stream.take(t + 1));
                    lemma_append_bit_mod(stream.take(t), stream[t], key as int);
                }
                key = shift_in_bit(key, v);
                i = i + 1;
            }
            assert(j * nn + nn == (j + 1) * nn) by (nonlinear_arith);
            j = j + 1;
        }
        assert(bits * nn == nn * bits) by (nonlinear_arith);
        assert(stream.take(bits * nn) =~= stream);
        Ok(key)
    }
}

} // verus!
