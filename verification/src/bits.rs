//! The packed bit storage behind a grid, and what is taken on trust about it.
//!
//! The storage is `fixedbitset::FixedBitSet`. Verus does not read that crate,
//! so each operation the grid relies on is given a contract here, stated over
//! [`bits_of`]. These contracts are assumptions: they were written from the
//! bit set's source and are not proved.

use fixedbitset::FixedBitSet;
use vstd::prelude::*;

verus! {

/// `fixedbitset::FixedBitSet`, made known to the verifier as an opaque type.
#[verifier::external_type_specification]
#[verifier::external_body]
pub struct ExFixedBitSet(FixedBitSet);

/// The bits a set holds, by index: `bits_of(set)[i]` is whether bit `i` is
/// enabled, and `bits_of(set).len()` is the set's length in bits.
pub uninterp spec fn bits_of(set: FixedBitSet) -> Seq<bool>;

/// A sequence of `n` disabled bits.
pub open spec fn all_clear(n: nat) -> Seq<bool> {
    Seq::new(n, |i: int| false)
}

/// `FixedBitSet::with_capacity`: a set of exactly `bits` bits, all disabled.
pub assume_specification[ FixedBitSet::with_capacity ](bits: usize) -> (set: FixedBitSet)
    ensures
        bits_of(set) == all_clear(bits as nat),
;

/// `FixedBitSet::contains`: whether `bit` is enabled; an index at or past the
/// length is reported as disabled, without a panic.
pub assume_specification[ FixedBitSet::contains ](set: &FixedBitSet, bit: usize) -> (enabled: bool)
    ensures
        enabled == (bit < bits_of(*set).len() && bits_of(*set)[bit as int]),
;

/// `FixedBitSet::set`: writes `enabled` to `bit` and leaves every other bit
/// and the length as they were. It panics on an index at or past the length,
/// so such an index is excluded.
pub assume_specification[ FixedBitSet::set ](set: &mut FixedBitSet, bit: usize, enabled: bool)
    requires
        bit < bits_of(*old(set)).len(),
    ensures
        bits_of(*final(set)) == bits_of(*old(set)).update(bit as int, enabled),
;

/// `FixedBitSet::toggle`: inverts `bit` and leaves every other bit and the
/// length as they were. It panics on an index at or past the length, so such
/// an index is excluded.
pub assume_specification[ FixedBitSet::toggle ](set: &mut FixedBitSet, bit: usize)
    requires
        bit < bits_of(*old(set)).len(),
    ensures
        bits_of(*final(set)) == bits_of(*old(set)).update(
            bit as int,
            !bits_of(*old(set))[bit as int],
        ),
;

/// `FixedBitSet::clear`: disables every bit and keeps the length.
pub assume_specification[ FixedBitSet::clear ](set: &mut FixedBitSet)
    ensures
        bits_of(*final(set)) == all_clear(bits_of(*old(set)).len()),
;

/// `<FixedBitSet as Clone>::clone`: a separate set with the same length and
/// the same bits.
pub assume_specification[ <FixedBitSet as Clone>::clone ](set: &FixedBitSet) -> (copy: FixedBitSet)
    ensures
        bits_of(copy) == bits_of(*set),
;

/// The number of machine words that hold `n` packed bits.
pub open spec fn block_count(n: nat) -> nat {
    ((n + usize::BITS - 1) / (usize::BITS as int)) as nat
}

/// Whether bit `k` of `block` is set, bit 0 being the least significant.
pub open spec fn block_bit(block: usize, k: nat) -> bool {
    (block >> (k as usize)) & 1usize == 1usize
}

/// Whether `blocks` is the packed form of `bits`: bit `i` sits in word
/// `i / usize::BITS`, at position `i % usize::BITS` counted from the least
/// significant end, and there are just enough words for all the bits.
pub open spec fn packs(blocks: Seq<usize>, bits: Seq<bool>) -> bool {
    &&& blocks.len() == block_count(bits.len())
    &&& forall|i: int|
        0 <= i < bits.len() ==> #[trigger] bits[i] == block_bit(
            blocks[i / (usize::BITS as int)],
            (i % (usize::BITS as int)) as nat,
        )
}

/// `FixedBitSet::as_slice`: the words in which the set keeps its bits, each
/// bit at the place that [`packs`] describes. Nothing is claimed of the
/// positions in the last word that lie past the set's length.
pub assume_specification[ FixedBitSet::as_slice ](set: &FixedBitSet) -> (blocks: &[usize])
    ensures
        packs(blocks@, bits_of(*set)),
;

} // verus!
