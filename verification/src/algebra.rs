//! The algebra of flag sets, stated over bit patterns.
//!
//! A flag set is a bit pattern (at most 128 bits wide, held here as a
//! `u128`); `all` is the union of the bits of the flags a type declares.
//! Bits outside `all` are "unknown" bits: a value may carry them (through
//! `from_bits_unchecked`), and the operations below say what happens to
//! them.
use vstd::prelude::*;

verus! {

/// The bits present in `a` or in `b`.
pub open spec fn union(a: u128, b: u128) -> u128 {
    a | b
}

/// The bits present in both `a` and `b`.
pub open spec fn intersection(a: u128, b: u128) -> u128 {
    a & b
}

/// The bits of `a` that are not in `b`.
pub open spec fn difference(a: u128, b: u128) -> u128 {
    a & !b
}

/// The bits present in exactly one of `a` and `b`.
pub open spec fn symmetric_difference(a: u128, b: u128) -> u128 {
    a ^ b
}

/// The declared bits that are not in `a`.
pub open spec fn complement(a: u128, all: u128) -> u128 {
    !a & all
}

/// The declared bits of `bits`: the unknown ones dropped.
pub open spec fn truncate(bits: u128, all: u128) -> u128 {
    bits & all
}

/// Whether `bits` holds a bit that no declared flag has.
pub open spec fn has_unknown_bits(bits: u128, all: u128) -> bool {
    bits & !all != 0
}

/// Whether every bit of `b` is in `a`.
pub open spec fn contains(a: u128, b: u128) -> bool {
    a & b == b
}

/// Whether `a` and `b` share a bit.
pub open spec fn intersects(a: u128, b: u128) -> bool {
    a & b != 0
}

/// Whether `a` holds every declared bit.
pub open spec fn is_all(a: u128, all: u128) -> bool {
    all | a == a
}

/// The flag set after `value` decides between inserting and removing `other`.
pub open spec fn set_to(a: u128, other: u128, value: bool) -> u128 {
    if value {
        union(a, other)
    } else {
        difference(a, other)
    }
}

/// The union of a sequence of flag sets, folded onto `start` from the first
/// element to the last.
pub open spec fn union_all(start: u128, items: Seq<u128>) -> u128
    decreases items.len(),
{
    if items.len() == 0 {
        start
    } else {
        union(union_all(start, items.drop_last()), items.last())
    }
}

// ---------------------------------------------------------------------
// Laws of the algebra.
// ---------------------------------------------------------------------

/// Union is commutative: `a | b` and `b | a` are the same set.
pub proof fn union_commutes(a: u128, b: u128)
    by (bit_vector)
    ensures
        union(a, b) == union(b, a),
{
}

/// Intersection is commutative.
pub proof fn intersection_commutes(a: u128, b: u128)
    by (bit_vector)
    ensures
        intersection(a, b) == intersection(b, a),
{
}

/// Symmetric difference is commutative.
pub proof fn symmetric_difference_commutes(a: u128, b: u128)
    by (bit_vector)
    ensures
        symmetric_difference(a, b) == symmetric_difference(b, a),
{
}

/// Union is associative.
pub proof fn union_associates(a: u128, b: u128, c: u128)
    by (bit_vector)
    ensures
        union(union(a, b), c) == union(a, union(b, c)),
{
}

/// The complement of a set is the difference between all declared flags
/// and the set.
pub proof fn complement_is_difference_from_all(a: u128, all: u128)
    by (bit_vector)
    ensures
        complement(a, all) == difference(all, a),
{
}

/// Taking the complement twice gives back the declared part of the set.
pub proof fn complement_twice(a: u128, all: u128)
    by (bit_vector)
    ensures
        complement(complement(a, all), all) == truncate(a, all),
{
}

/// The complement of a union is the intersection of the complements.
pub proof fn complement_of_union(a: u128, b: u128, all: u128)
    by (bit_vector)
    ensures
        complement(union(a, b), all) == intersection(complement(a, all), complement(b, all)),
{
}

/// A set and its complement share no flag.
pub proof fn complement_is_disjoint(a: u128, all: u128)
    by (bit_vector)
    ensures
        !intersects(a, complement(a, all)),
{
}

/// Truncation keeps exactly the pattern when no unknown bit is present.
pub proof fn truncate_without_unknown_bits(bits: u128, all: u128)
    by (bit_vector)
    ensures
        !has_unknown_bits(bits, all) <==> truncate(bits, all) == bits,
{
}

/// A set holds every declared flag exactly when it contains `all`.
pub proof fn is_all_iff_contains_all(a: u128, all: u128)
    by (bit_vector)
    ensures
        is_all(a, all) <==> contains(a, all),
{
}

/// After inserting `b`, the set contains `b`, and whatever it contained before.
pub proof fn union_contains_both(a: u128, b: u128)
    by (bit_vector)
    ensures
        contains(union(a, b), b),
        contains(union(a, b), a),
{
}

/// After removing `b`, the set shares no flag with `b`.
pub proof fn difference_is_disjoint(a: u128, b: u128)
    by (bit_vector)
    ensures
        !intersects(difference(a, b), b),
{
}

/// Toggling the same flags twice gives back the set it started from.
pub proof fn toggle_twice(a: u128, b: u128)
    by (bit_vector)
    ensures
        symmetric_difference(symmetric_difference(a, b), b) == a,
{
}

/// Two sets intersect exactly when their intersection is not empty.
pub proof fn intersects_iff_nonempty_intersection(a: u128, b: u128)
    by (bit_vector)
    ensures
        intersects(a, b) <==> intersection(a, b) != 0,
{
}

/// Every set contains the empty set, and the empty set contains only itself.
pub proof fn empty_is_least(a: u128)
    by (bit_vector)
    ensures
        contains(a, 0),
        contains(0, a) <==> a == 0,
{
}

/// Every set contains itself.
pub proof fn contains_is_reflexive(a: u128)
    by (bit_vector)
    ensures
        contains(a, a),
{
}

/// Symmetric difference is the union of the two one-sided differences.
pub proof fn symmetric_difference_is_union_of_differences(a: u128, b: u128)
    by (bit_vector)
    ensures
        symmetric_difference(a, b) == union(difference(a, b), difference(b, a)),
{
}

/// Truncating leaves no unknown bit, and truncating twice changes nothing.
pub proof fn truncate_is_declared(bits: u128, all: u128)
    by (bit_vector)
    ensures
        !has_unknown_bits(truncate(bits, all), all),
        truncate(truncate(bits, all), all) == truncate(bits, all),
{
}

/// The set of all declared flags holds every flag, has no unknown bit, and
/// its complement is empty; the complement of the empty set is that set.
pub proof fn all_is_greatest(all: u128)
    by (bit_vector)
    ensures
        is_all(all, all),
        !has_unknown_bits(all, all),
        complement(all, all) == 0,
        complement(0, all) == all,
{
}

/// Inserting and then removing the same flags leaves the set without them;
/// removing and then inserting leaves it with them.
pub proof fn insert_remove(a: u128, b: u128)
    by (bit_vector)
    ensures
        difference(union(a, b), b) == difference(a, b),
        union(difference(a, b), b) == union(a, b),
{
}

/// Folding a union over a sequence never loses a bit of the start or of
/// any element, and adds no bit that none of them has.
pub proof fn union_all_contains(start: u128, items: Seq<u128>)
    ensures
        contains(union_all(start, items), start),
        forall|i: int| 0 <= i < items.len() ==> contains(union_all(start, items), #[trigger] items[i]),
    decreases items.len(),
{
    if items.len() == 0 {
        contains_is_reflexive(start);
    } else {
        let prev = union_all(start, items.drop_last());
        union_all_contains(start, items.drop_last());
        lemma_union_keeps_contains(prev, items.last(), start);
        union_contains_both(prev, items.last());
        assert forall|i: int| 0 <= i < items.len() implies contains(
            union_all(start, items),
            #[trigger] items[i],
        ) by {
            if i < items.len() - 1 {
                assert(items[i] == items.drop_last()[i]);
                lemma_union_keeps_contains(prev, items.last(), items[i]);
            }
        }
    }
}

proof fn lemma_union_keeps_contains(a: u128, b: u128, c: u128)
    by (bit_vector)
    requires
        contains(a, c),
    ensures
        contains(union(a, b), c),
{
}

// ---------------------------------------------------------------------
// How the operations of each underlying integer type show in the view.
// ---------------------------------------------------------------------

/// The view of a `u8` flag set.
pub open spec fn view_u8(x: u8) -> u128 {
    x as u128
}

/// The view of a `u16` flag set.
pub open spec fn view_u16(x: u16) -> u128 {
    x as u128
}

/// The view of a `u32` flag set.
pub open spec fn view_u32(x: u32) -> u128 {
    x as u128
}

/// The view of an `i8` flag set: its two's-complement bit pattern.
pub open spec fn view_i8(x: i8) -> u128 {
    (x as u8) as u128
}

/// The view of a `u128` flag set: the pattern itself.
pub open spec fn view_u128(x: u128) -> u128 {
    x
}

pub(crate) proof fn lemma_ops_u8(a: u8, b: u8)
    by (bit_vector)
    ensures
        ((a | b) as u128) == (a as u128) | (b as u128),
        ((a & b) as u128) == (a as u128) & (b as u128),
        ((a ^ b) as u128) == (a as u128) ^ (b as u128),
        ((a & !b) as u128) == (a as u128) & !(b as u128),
        ((!a & b) as u128) == !(a as u128) & (b as u128),
        ((a as u128) == (b as u128)) == (a == b),
        (a as u128) >> 8u128 == 0,
{
}

pub(crate) proof fn lemma_ops_u16(a: u16, b: u16)
    by (bit_vector)
    ensures
        ((a | b) as u128) == (a as u128) | (b as u128),
        ((a & b) as u128) == (a as u128) & (b as u128),
        ((a ^ b) as u128) == (a as u128) ^ (b as u128),
        ((a & !b) as u128) == (a as u128) & !(b as u128),
        ((!a & b) as u128) == !(a as u128) & (b as u128),
        ((a as u128) == (b as u128)) == (a == b),
        (a as u128) >> 16u128 == 0,
{
}

pub(crate) proof fn lemma_ops_u32(a: u32, b: u32)
    by (bit_vector)
    ensures
        ((a | b) as u128) == (a as u128) | (b as u128),
        ((a & b) as u128) == (a as u128) & (b as u128),
        ((a ^ b) as u128) == (a as u128) ^ (b as u128),
        ((a & !b) as u128) == (a as u128) & !(b as u128),
        ((!a & b) as u128) == !(a as u128) & (b as u128),
        ((a as u128) == (b as u128)) == (a == b),
        (a as u128) >> 32u128 == 0,
{
}

pub(crate) proof fn lemma_ops_i8(a: i8, b: i8)
    by (bit_vector)
    ensures
        (((a | b) as u8) as u128) == ((a as u8) as u128) | ((b as u8) as u128),
        (((a & b) as u8) as u128) == ((a as u8) as u128) & ((b as u8) as u128),
        (((a ^ b) as u8) as u128) == ((a as u8) as u128) ^ ((b as u8) as u128),
        (((a & !b) as u8) as u128) == ((a as u8) as u128) & !((b as u8) as u128),
        (((!a & b) as u8) as u128) == !((a as u8) as u128) & ((b as u8) as u128),
        (((a as u8) as u128) == ((b as u8) as u128)) == (a == b),
        (((a as u8) as u128) == 0) == (a == 0),
        ((a as u8) as u128) >> 8u128 == 0,
{
}

} // verus!
