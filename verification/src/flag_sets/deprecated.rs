//! The flag set `TestFlags`, with the single flag `ONE`.
use crate::algebra;
use crate::algebra::{lemma_ops_u32, view_u32};
use crate::flag_text;
use crate::radix;
use vstd::prelude::*;
use vstd::std_specs::iter::IteratorSpec;

verus! {

/// A set of the one flag `ONE` over a `u32`.
///
/// The derived `Debug` shows the raw field; `to_debug_string` gives the
/// text that names the flags.
#[derive(Copy, Clone, PartialEq, Eq, Structural, PartialOrd, Ord, Hash, Debug)]
pub struct TestFlags {
    pub bits: u32,
}

impl View for TestFlags {
    type V = u128;

    open spec fn view(&self) -> u128 {
        view_u32(self.bits)
    }
}

impl TestFlags {
    /// The flag `ONE`.
    #[allow(non_snake_case)]
    #[verifier::allow_in_spec]
    pub fn ONE() -> Self
        returns
            (Self { bits: 1 }),
    {
        Self { bits: 1 }
    }

    /// The union of the declared flags.
    pub open spec fn all_view() -> u128 {
        Self::ONE()@
    }

    /// The declared flags with their names, in declaration order.
    pub open spec fn name_table() -> Seq<(Seq<char>, u128)> {
        seq![("ONE"@, Self::ONE()@)]
    }

    /// Two sets are equal exactly when their views are: every law of
    /// `crate::algebra` on views is a law on the sets themselves.
    pub proof fn view_injective(a: Self, b: Self)
        ensures
            (a@ == b@) == (a == b),
    {
        lemma_ops_u32(a.bits, b.bits);
    }

    /// The bit pattern of the set, zero-extended to 128 bits.
    pub fn view_bits(&self) -> (r: u128)
        ensures
            r == self@,
    {
        self.bits as u128
    }

    /// Returns an empty set of flags.
    pub fn empty() -> (r: Self)
        ensures
            r@ == 0,
            r.bits == 0,
    {
        Self { bits: 0 }
    }

    /// Returns the set containing all flags.
    pub fn all() -> (r: Self)
        ensures
            r@ == Self::all_view(),
            r.bits == Self::ONE().bits,
    {
        Self { bits: Self::ONE().bits }
    }

    /// Returns the raw value of the flags currently stored.
    pub fn bits(&self) -> (r: u32)
        ensures
            r == self.bits,
    {
        self.bits
    }

    /// Converts from a bit pattern, unless it holds bits that do not
    /// correspond to a flag.
    pub fn from_bits(bits: u32) -> (r: Option<Self>)
        ensures
            r is Some <==> !algebra::has_unknown_bits(view_u32(bits), Self::all_view()),
            r is Some ==> r->0.bits == bits,
    {
        let all = Self::all();
        proof {
            lemma_ops_u32(bits, all.bits);
            lemma_ops_u32(bits & !all.bits, 0);
        }
        if (bits & !all.bits) == 0 {
            Some(Self { bits })
        } else {
            None
        }
    }

    /// Converts from a bit pattern, dropping the bits that do not
    /// correspond to flags.
    pub fn from_bits_truncate(bits: u32) -> (r: Self)
        ensures
            r@ == algebra::truncate(view_u32(bits), Self::all_view()),
    {
        let all = Self::all();
        proof {
            lemma_ops_u32(bits, all.bits);
        }
        Self { bits: bits & all.bits }
    }

    /// Converts from a bit pattern, keeping every bit, also those that
    /// correspond to no declared flag.
    pub fn from_bits_unchecked(bits: u32) -> (r: Self)
        ensures
            r.bits == bits,
    {
        Self { bits }
    }

    /// Returns `true` if no flags are currently stored.
    pub fn is_empty(&self) -> (r: bool)
        ensures
            r == (self@ == 0),
    {
        proof {
            lemma_ops_u32(self.bits, 0);
        }
        self.bits == Self::empty().bits
    }

    /// Returns `true` if all flags are currently set.
    pub fn is_all(&self) -> (r: bool)
        ensures
            r == algebra::is_all(self@, Self::all_view()),
    {
        let all = Self::all();
        proof {
            lemma_ops_u32(all.bits, self.bits);
            lemma_ops_u32(all.bits | self.bits, self.bits);
        }
        all.bits | self.bits == self.bits
    }

    /// Returns `true` if there are flags common to both `self` and `other`.
    pub fn intersects(&self, other: Self) -> (r: bool)
        ensures
            r == algebra::intersects(self@, other@),
    {
        proof {
            lemma_ops_u32(self.bits, other.bits);
            lemma_ops_u32(self.bits & other.bits, 0);
        }
        !(Self { bits: self.bits & other.bits }).is_empty()
    }

    /// Returns `true` if all of the flags in `other` are contained within `self`.
    pub fn contains(&self, other: Self) -> (r: bool)
        ensures
            r == algebra::contains(self@, other@),
    {
        proof {
            lemma_ops_u32(self.bits, other.bits);
            lemma_ops_u32(self.bits & other.bits, other.bits);
        }
        (self.bits & other.bits) == other.bits
    }

    /// Inserts the specified flags in-place.
    pub fn insert(&mut self, other: Self)
        ensures
            final(self)@ == algebra::union(old(self)@, other@),
    {
        proof {
            lemma_ops_u32(self.bits, other.bits);
        }
        self.bits = self.bits | other.bits;
    }

    /// Removes the specified flags in-place.
    pub fn remove(&mut self, other: Self)
        ensures
            final(self)@ == algebra::difference(old(self)@, other@),
    {
        proof {
            lemma_ops_u32(self.bits, other.bits);
        }
        self.bits = self.bits & !other.bits;
    }

    /// Toggles the specified flags in-place.
    pub fn toggle(&mut self, other: Self)
        ensures
            final(self)@ == algebra::symmetric_difference(old(self)@, other@),
    {
        proof {
            lemma_ops_u32(self.bits, other.bits);
        }
        self.bits = self.bits ^ other.bits;
    }

    /// Inserts or removes the specified flags depending on the passed value.
    pub fn set(&mut self, other: Self, value: bool)
        ensures
            final(self)@ == algebra::set_to(old(self)@, other@, value),
    {
        if value {
            self.insert(other);
        } else {
            self.remove(other);
        }
    }

    /// Returns the flags present in both `self` and `other`.
    pub fn intersection(self, other: Self) -> (r: Self)
        ensures
            r@ == algebra::intersection(self@, other@),
    {
        proof {
            lemma_ops_u32(self.bits, other.bits);
        }
        Self { bits: self.bits & other.bits }
    }

    /// Returns the flags present in `self` or in `other`.
    pub fn union(self, other: Self) -> (r: Self)
        ensures
            r@ == algebra::union(self@, other@),
    {
        proof {
            lemma_ops_u32(self.bits, other.bits);
        }
        Self { bits: self.bits | other.bits }
    }

    /// Returns the flags of `self` that are not in `other`.
    pub fn difference(self, other: Self) -> (r: Self)
        ensures
            r@ == algebra::difference(self@, other@),
    {
        proof {
            lemma_ops_u32(self.bits, other.bits);
        }
        Self { bits: self.bits & !other.bits }
    }

    /// Returns the flags present in exactly one of `self` and `other`.
    pub fn symmetric_difference(self, other: Self) -> (r: Self)
        ensures
            r@ == algebra::symmetric_difference(self@, other@),
    {
        proof {
            lemma_ops_u32(self.bits, other.bits);
        }
        Self { bits: self.bits ^ other.bits }
    }

    /// Returns the declared flags that are not set in `self`.
    pub fn complement(self) -> (r: Self)
        ensures
            r@ == algebra::complement(self@, Self::all_view()),
            r@ == algebra::truncate(view_u32(!self.bits), Self::all_view()),
    {
        let all = Self::all();
        proof {
            lemma_ops_u32(!self.bits, all.bits);
            lemma_ops_u32(self.bits, all.bits);
        }
        Self::from_bits_truncate(!self.bits)
    }

    /// Inserts every set of `items`, in order.
    pub fn insert_all(&mut self, items: &[Self])
        ensures
            final(self)@ == algebra::union_all(old(self)@, items@.map_values(|f: TestFlags| f@)),
    {
        let ghost views = items@.map_values(|f: TestFlags| f@);
        let mut i: usize = 0;
        while i < items.len()
            invariant
                i <= items.len(),
                views == items@.map_values(|f: TestFlags| f@),
                self@ == algebra::union_all(old(self)@, views.take(i as int)),
            decreases items.len() - i,
        {
            assert(views.take(i + 1).drop_last() =~= views.take(i as int));
            self.insert(items[i]);
            i = i + 1;
        }
        assert(views.take(items.len() as int) =~= views);
    }

    /// The union of the sets of `items`.
    pub fn union_of(items: &[Self]) -> (r: Self)
        ensures
            r@ == algebra::union_all(0, items@.map_values(|f: TestFlags| f@)),
    {
        let mut r = Self::empty();
        r.insert_all(items);
        r
    }

    /// Inserts every set that `iter` yields, in order, for an iterator that
    /// keeps the laws of iterators and ends.
    pub fn insert_iter<I: core::iter::Iterator<Item = TestFlags>>(&mut self, iter: I)
        requires
            iter.obeys_prophetic_iter_laws(),
            iter.will_return_none(),
            iter.decrease() is Some,
        ensures
            final(self)@ == algebra::union_all(old(self)@, iter.remaining().map_values(|f: TestFlags| f@)),
    {
        let ghost items = iter.remaining();
        let ghost mut k: int = 0;
        let mut it = iter;
        loop
            invariant_except_break
                it.obeys_prophetic_iter_laws(),
                it.will_return_none(),
                it.decrease() is Some,
                0 <= k <= items.len(),
                it.remaining() == items.skip(k),
                self@ == algebra::union_all(old(self)@, items.take(k).map_values(|f: TestFlags| f@)),
            ensures
                self@ == algebra::union_all(old(self)@, items.map_values(|f: TestFlags| f@)),
            decreases it.decrease()->0,
        {
            match it.next() {
                Some(f) => {
                    proof {
                        assert(items.skip(k)[0] == items[k]);
                        assert(items.take(k + 1).map_values(|f: TestFlags| f@).drop_last() =~= items.take(k).map_values(|f: TestFlags| f@));
                        assert(items.skip(k).drop_first() =~= items.skip(k + 1));
                    }
                    self.insert(f);
                    proof {
                        k = k + 1;
                    }
                },
                None => {
                    assert(items.take(k) =~= items);
                    break;
                },
            }
        }
    }

    /// The union of the sets that `iter` yields, for an iterator that keeps
    /// the laws of iterators and ends.
    pub fn union_iter<I: core::iter::Iterator<Item = TestFlags>>(iter: I) -> (r: Self)
        requires
            iter.obeys_prophetic_iter_laws(),
            iter.will_return_none(),
            iter.decrease() is Some,
        ensures
            r@ == algebra::union_all(0, iter.remaining().map_values(|f: TestFlags| f@)),
    {
        let mut r = Self::empty();
        r.insert_iter(iter);
        r
    }

    /// The text that the `{:?}` format of the flag set prints: the names
    /// of its flags joined by ` | `, then its unknown bits in hexadecimal.
    pub fn to_debug_string(&self) -> (s: String)
        ensures
            s@ == flag_text::debug_text(self@, Self::all_view(), Self::name_table()),
    {
        let names: [(&str, u128); 1] = [("ONE", Self::ONE().view_bits())];
        let s = flag_text::debug_string(self.view_bits(), Self::all().view_bits(), &names);
        assert(flag_text::name_views(names@) =~= Self::name_table());
        s
    }

    /// The bits as the `{:b}` format prints them, or `{:#b}` when
    /// `alternate` holds.
    pub fn to_binary_string(&self, alternate: bool) -> (s: String)
        ensures
            s@ == radix::radix_text(self@ as nat, 2, false, alternate, "0b"@),
    {
        radix::binary_string(self.view_bits(), alternate)
    }

    /// The bits as the `{:o}` format prints them, or `{:#o}` when
    /// `alternate` holds.
    pub fn to_octal_string(&self, alternate: bool) -> (s: String)
        ensures
            s@ == radix::radix_text(self@ as nat, 8, false, alternate, "0o"@),
    {
        radix::octal_string(self.view_bits(), alternate)
    }

    /// The bits as the `{:x}` format prints them, or `{:#x}` when
    /// `alternate` holds.
    pub fn to_lower_hex_string(&self, alternate: bool) -> (s: String)
        ensures
            s@ == radix::radix_text(self@ as nat, 16, false, alternate, "0x"@),
    {
        radix::lower_hex_string(self.view_bits(), alternate)
    }

    /// The bits as the `{:X}` format prints them, or `{:#X}` when
    /// `alternate` holds.
    pub fn to_upper_hex_string(&self, alternate: bool) -> (s: String)
        ensures
            s@ == radix::radix_text(self@ as nat, 16, true, alternate, "0x"@),
    {
        radix::upper_hex_string(self.view_bits(), alternate)
    }
}

impl core::ops::BitOr for TestFlags {
    type Output = Self;

    /// Returns the union of the two sets of flags.
    fn bitor(self, other: Self) -> (r: Self)
        ensures
            r@ == algebra::union(self@, other@),
    {
        proof {
            lemma_ops_u32(self.bits, other.bits);
        }
        Self { bits: self.bits | other.bits }
    }
}

impl vstd::std_specs::ops::BitOrSpecImpl for TestFlags {
    open spec fn obeys_bitor_spec() -> bool {
        true
    }

    open spec fn bitor_req(self, other: Self) -> bool {
        true
    }

    open spec fn bitor_spec(self, other: Self) -> Self {
        TestFlags { bits: self.bits | other.bits }
    }
}

impl core::ops::BitXor for TestFlags {
    type Output = Self;

    /// Returns the left flags, but with all the right flags toggled.
    fn bitxor(self, other: Self) -> (r: Self)
        ensures
            r@ == algebra::symmetric_difference(self@, other@),
    {
        proof {
            lemma_ops_u32(self.bits, other.bits);
        }
        Self { bits: self.bits ^ other.bits }
    }
}

impl vstd::std_specs::ops::BitXorSpecImpl for TestFlags {
    open spec fn obeys_bitxor_spec() -> bool {
        true
    }

    open spec fn bitxor_req(self, other: Self) -> bool {
        true
    }

    open spec fn bitxor_spec(self, other: Self) -> Self {
        TestFlags { bits: self.bits ^ other.bits }
    }
}

impl core::ops::BitAnd for TestFlags {
    type Output = Self;

    /// Returns the intersection between the two sets of flags.
    fn bitand(self, other: Self) -> (r: Self)
        ensures
            r@ == algebra::intersection(self@, other@),
    {
        proof {
            lemma_ops_u32(self.bits, other.bits);
        }
        Self { bits: self.bits & other.bits }
    }
}

impl vstd::std_specs::ops::BitAndSpecImpl for TestFlags {
    open spec fn obeys_bitand_spec() -> bool {
        true
    }

    open spec fn bitand_req(self, other: Self) -> bool {
        true
    }

    open spec fn bitand_spec(self, other: Self) -> Self {
        TestFlags { bits: self.bits & other.bits }
    }
}

impl core::ops::Sub for TestFlags {
    type Output = Self;

    /// Returns the set difference of the two sets of flags.
    fn sub(self, other: Self) -> (r: Self)
        ensures
            r@ == algebra::difference(self@, other@),
    {
        proof {
            lemma_ops_u32(self.bits, other.bits);
        }
        Self { bits: self.bits & ! other.bits }
    }
}

impl vstd::std_specs::ops::SubSpecImpl for TestFlags {
    open spec fn obeys_sub_spec() -> bool {
        true
    }

    open spec fn sub_req(self, other: Self) -> bool {
        true
    }

    open spec fn sub_spec(self, other: Self) -> Self {
        TestFlags { bits: self.bits & ! other.bits }
    }
}

impl core::ops::BitOrAssign for TestFlags {
    /// Adds the set of flags.
    fn bitor_assign(&mut self, other: Self)
        ensures
            final(self)@ == algebra::union(old(self)@, other@),
    {
        proof {
            lemma_ops_u32(self.bits, other.bits);
        }
        self.bits = self.bits | other.bits;
    }
}

impl core::ops::BitXorAssign for TestFlags {
    /// Toggles the set of flags.
    fn bitxor_assign(&mut self, other: Self)
        ensures
            final(self)@ == algebra::symmetric_difference(old(self)@, other@),
    {
        proof {
            lemma_ops_u32(self.bits, other.bits);
        }
        self.bits = self.bits ^ other.bits;
    }
}

impl core::ops::BitAndAssign for TestFlags {
    /// Disables all flags disabled in the set.
    fn bitand_assign(&mut self, other: Self)
        ensures
            final(self)@ == algebra::intersection(old(self)@, other@),
    {
        proof {
            lemma_ops_u32(self.bits, other.bits);
        }
        self.bits = self.bits & other.bits;
    }
}

impl core::ops::SubAssign for TestFlags {
    /// Disables all flags enabled in the set.
    fn sub_assign(&mut self, other: Self)
        ensures
            final(self)@ == algebra::difference(old(self)@, other@),
    {
        proof {
            lemma_ops_u32(self.bits, other.bits);
        }
        self.bits = self.bits & ! other.bits;
    }
}

impl core::ops::Not for TestFlags {
    type Output = Self;

    /// Returns the complement of this set of flags.
    fn not(self) -> (r: Self)
        ensures
            r@ == algebra::complement(self@, Self::all_view()),
    {
        let all = Self::all();
        proof {
            lemma_ops_u32(!self.bits, all.bits);
            lemma_ops_u32(self.bits, all.bits);
        }
        Self { bits: !self.bits & all.bits }
    }
}

impl vstd::std_specs::ops::NotSpecImpl for TestFlags {
    open spec fn obeys_not_spec() -> bool {
        true
    }

    open spec fn not_req(self) -> bool {
        true
    }

    open spec fn not_spec(self) -> Self {
        TestFlags { bits: !self.bits & (Self::ONE().bits) }
    }
}

impl core::iter::Extend<TestFlags> for TestFlags {
    /// Inserts every set that the iterator yields, with the verified
    /// `insert_iter`. Trusted: it hands on the caller's iterator, converted
    /// with `IntoIterator::into_iter`, and relies on that iterator keeping
    /// the laws of iterators and ending, which nothing here can check.
    #[verifier::external_body]
    fn extend<T: core::iter::IntoIterator<Item = TestFlags>>(&mut self, iterator: T) {
        self.insert_iter(iterator.into_iter());
    }
}

impl core::iter::FromIterator<TestFlags> for TestFlags {
    /// The union of the sets that the iterator yields, with the verified
    /// `union_iter`. Trusted: it hands on the caller's iterator, converted
    /// with `IntoIterator::into_iter`, and relies on that iterator keeping
    /// the laws of iterators and ending, which nothing here can check.
    #[verifier::external_body]
    fn from_iter<T: core::iter::IntoIterator<Item = TestFlags>>(iterator: T) -> Self {
        Self::union_iter(iterator.into_iter())
    }
}

} // verus!
