//! Genomes and the rule by which two of them are mixed.

use vstd::prelude::*;

verus! {

/// A kitty: its genome of sixteen bytes, fixed when the kitty is made.
#[derive(Clone, Copy, Debug)]
pub struct Kitty(pub [u8; 16]);

impl View for Kitty {
    type V = Seq<u8>;

    open spec fn view(&self) -> Seq<u8> {
        self.0@
    }
}

/// The byte in which every bit comes from `dna1` where the matching bit of
/// `selector` is set, and from `dna2` where it is clear.
pub open spec fn combine_dna_spec(dna1: u8, dna2: u8, selector: u8) -> u8 {
    (selector & dna1) | (!selector & dna2)
}

/// The genome whose every byte mixes the bytes of `dna1` and `dna2` at the
/// same place as the byte of `selector` at that place says.
pub open spec fn combine_spec(dna1: Seq<u8>, dna2: Seq<u8>, selector: Seq<u8>) -> Seq<u8> {
    Seq::new(16, |i: int| combine_dna_spec(dna1[i], dna2[i], selector[i]))
}

/// Mixes one byte of two parent genomes, bit by bit, as `selector` says.
/// A selector of all ones gives `dna1` back, one of all zeros `dna2`.
pub fn combine_dna(dna1: u8, dna2: u8, selector: u8) -> (child: u8)
    ensures
        child == combine_dna_spec(dna1, dna2, selector),
        selector == 0xff ==> child == dna1,
        selector == 0x00 ==> child == dna2,
{
    proof {
        lemma_combine_dna_extremes(dna1, dna2);
    }
    (selector & dna1) | (!selector & dna2)
}

/// Mixes two parent genomes byte by byte.
pub fn combine(dna1: &[u8; 16], dna2: &[u8; 16], selector: &[u8; 16]) -> (child: [u8; 16])
    ensures
        child@ == combine_spec(dna1@, dna2@, selector@),
{
    let mut new_dna = [0u8; 16];
    let mut i: usize = 0;
    while i < 16
        invariant
            i <= 16,
            forall|j: int| 0 <= j < i ==> new_dna@[j] == combine_dna_spec(dna1@[j], dna2@[j], selector@[j]),
        decreases 16 - i,
    {
        new_dna[i] = combine_dna(dna1[i], dna2[i], selector[i]);
        i += 1;
    }
    assert(new_dna@ =~= combine_spec(dna1@, dna2@, selector@));
    new_dna
}

/// With every selector bit set the child byte is the first parent's, with
/// every selector bit clear it is the second parent's.
pub proof fn lemma_combine_dna_extremes(dna1: u8, dna2: u8)
    ensures
        combine_dna_spec(dna1, dna2, 0xff) == dna1,
        combine_dna_spec(dna1, dna2, 0x00) == dna2,
{
    assert((0xffu8 & dna1) | (!0xffu8 & dna2) == dna1) by (bit_vector);
    assert((0x00u8 & dna1) | (!0x00u8 & dna2) == dna2) by (bit_vector);
}

/// Bit `k` of the child byte is bit `k` of the first parent where bit `k` of
/// the selector is set, and bit `k` of the second parent where it is clear.
pub proof fn lemma_combine_dna_bitwise(dna1: u8, dna2: u8, selector: u8, k: u8)
    requires
        k < 8,
    ensures
        (combine_dna_spec(dna1, dna2, selector) >> k) & 1 == if (selector >> k) & 1 == 1 {
            (dna1 >> k) & 1
        } else {
            (dna2 >> k) & 1
        },
{
    assert((((selector & dna1) | (!selector & dna2)) >> k) & 1 == if (selector >> k) & 1 == 1 {
        (dna1 >> k) & 1
    } else {
        (dna2 >> k) & 1
    }) by (bit_vector)
        requires
            k < 8,
    ;
}

/// Byte by byte, a genome mixed from two parents follows the rule for bytes;
/// where the selector byte is all ones it repeats the first parent, where it
/// is all zeros the second.
pub proof fn lemma_combine_bytes(dna1: Seq<u8>, dna2: Seq<u8>, selector: Seq<u8>, i: int)
    requires
        0 <= i < 16,
    ensures
        combine_spec(dna1, dna2, selector).len() == 16,
        combine_spec(dna1, dna2, selector)[i] == (selector[i] & dna1[i]) | (!selector[i] & dna2[i]),
        selector[i] == 0xff ==> combine_spec(dna1, dna2, selector)[i] == dna1[i],
        selector[i] == 0x00 ==> combine_spec(dna1, dna2, selector)[i] == dna2[i],
{
    lemma_combine_dna_extremes(dna1[i], dna2[i]);
}

} // verus!
