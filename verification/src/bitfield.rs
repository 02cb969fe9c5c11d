//! A 64-element bit set, modelled as the set of positions whose bit is one.

use vstd::prelude::*;

verus! {

/// Whether bit `i` of `v` is one. Positions from 64 on are never set.
pub open spec fn bit_is_set(v: u64, i: nat) -> bool {
    i < 64 && (v >> (i as u64)) & 1 == 1
}

/// The set of positions at which `v` has a one bit.
pub open spec fn set_of(v: u64) -> Set<nat> {
    Set::new(|i: nat| bit_is_set(v, i))
}

/// The positions below `n` at which `v` has a one bit.
pub open spec fn set_below(v: u64, n: nat) -> Set<nat> {
    Set::new(|i: nat| i < n && bit_is_set(v, i))
}

/// The number of one bits of `v` among its lowest `n` positions.
pub open spec fn ones_below(v: u64, n: nat) -> nat
    decreases n,
{
    if n == 0 {
        0
    } else {
        ones_below(v, (n - 1) as nat) + if bit_is_set(v, (n - 1) as nat) {
            1nat
        } else {
            0nat
        }
    }
}

/// The mask whose one bits are exactly the members of `s`.
pub open spec fn mask_of(s: Set<nat>) -> u64 {
    choose|v: u64| set_of(v) == s
}

/// `u64::count_ones`: the number of ones in the binary representation of `v`,
/// stated here as the count of set bits over all 64 positions.
pub assume_specification[ u64::count_ones ](v: u64) -> (r: u32)
    ensures
        r == ones_below(v, 64),
;

proof fn lemma_bit_test(v: u64, i: u64)
    by (bit_vector)
    requires
        i < 64,
    ensures
        ((v & (1u64 << i)) != 0) == ((v >> i) & 1 == 1),
{
}

proof fn lemma_bit_after_set(v: u64, i: u64, j: u64)
    by (bit_vector)
    requires
        i < 64,
        j < 64,
    ensures
        (((v | (1u64 << i)) >> j) & 1 == 1) == (j == i || (v >> j) & 1 == 1),
{
}

proof fn lemma_bit_after_unset(v: u64, i: u64, j: u64)
    by (bit_vector)
    requires
        i < 64,
        j < 64,
    ensures
        (((v & !(1u64 << i)) >> j) & 1 == 1) == (j != i && (v >> j) & 1 == 1),
{
}

proof fn lemma_bit_after_toggle(v: u64, i: u64, j: u64)
    by (bit_vector)
    requires
        i < 64,
        j < 64,
    ensures
        (((v ^ (1u64 << i)) >> j) & 1 == 1) == (((v >> j) & 1 == 1) != (j == i)),
{
}

proof fn lemma_bit_of_and(a: u64, b: u64, j: u64)
    by (bit_vector)
    requires
        j < 64,
    ensures
        (((a & b) >> j) & 1 == 1) == ((a >> j) & 1 == 1 && (b >> j) & 1 == 1),
{
}

proof fn lemma_bit_of_or(a: u64, b: u64, j: u64)
    by (bit_vector)
    requires
        j < 64,
    ensures
        (((a | b) >> j) & 1 == 1) == ((a >> j) & 1 == 1 || (b >> j) & 1 == 1),
{
}

proof fn lemma_bit_of_and_not(a: u64, b: u64, j: u64)
    by (bit_vector)
    requires
        j < 64,
    ensures
        (((a & !b) >> j) & 1 == 1) == ((a >> j) & 1 == 1 && !((b >> j) & 1 == 1)),
{
}

proof fn lemma_bit_of_xor(a: u64, b: u64, j: u64)
    by (bit_vector)
    requires
        j < 64,
    ensures
        (((a ^ b) >> j) & 1 == 1) == (((a >> j) & 1 == 1) != ((b >> j) & 1 == 1)),
{
}

proof fn lemma_bit_of_zero(j: u64)
    by (bit_vector)
    requires
        j < 64,
    ensures
        (0u64 >> j) & 1 == 0,
{
}

proof fn lemma_xor_of_distinct(a: u64, b: u64)
    by (bit_vector)
    requires
        a != b,
    ensures
        a ^ b != 0,
{
}

proof fn lemma_low_bit_is_zero_or_one(x: u64)
    by (bit_vector)
    ensures
        x & 1 == 0 || x & 1 == 1,
{
}

proof fn lemma_unset_lowers(v: u64, i: u64)
    by (bit_vector)
    requires
        i < 64,
        (v >> i) & 1 == 1,
    ensures
        v & !(1u64 << i) < v,
{
}

/// Two masks with the same set of one bits are the same mask.
pub proof fn lemma_set_of_injective(a: u64, b: u64)
    requires
        set_of(a) == set_of(b),
    ensures
        a == b,
{
    if a != b {
        let x: u64 = a ^ b;
        lemma_xor_of_distinct(a, b);
        let t: u32 = x.trailing_zeros();
        assert(t < 64);
        lemma_bit_of_xor(a, b, t as u64);
        assert(set_of(a).contains(t as nat) == bit_is_set(a, t as nat));
        assert(set_of(b).contains(t as nat) == bit_is_set(b, t as nat));
        assert(false);
    }
}

/// `mask_of` undoes `set_of`.
pub proof fn lemma_mask_of_set(v: u64)
    ensures
        mask_of(set_of(v)) == v,
{
    let w = mask_of(set_of(v));
    assert(set_of(w) == set_of(v));
    lemma_set_of_injective(w, v);
}

/// The one bits below `n` form a finite set of `ones_below(v, n)` members.
pub proof fn lemma_ones_below_counts(v: u64, n: nat)
    ensures
        set_below(v, n).finite(),
        set_below(v, n).len() == ones_below(v, n),
    decreases n,
{
    if n == 0 {
        assert(set_below(v, n) =~= Set::<nat>::empty());
    } else {
        let m = (n - 1) as nat;
        lemma_ones_below_counts(v, m);
        if bit_is_set(v, m) {
            assert(set_below(v, n) =~= set_below(v, m).insert(m));
        } else {
            assert(set_below(v, n) =~= set_below(v, m));
        }
    }
}

/// A mask has finitely many one bits, `ones_below(v, 64)` of them, at most 64.
pub proof fn lemma_set_of_counts(v: u64)
    ensures
        set_of(v).finite(),
        set_of(v).len() == ones_below(v, 64),
        set_of(v).len() <= 64,
{
    lemma_ones_below_counts(v, 64);
    assert(set_of(v) =~= set_below(v, 64));
    lemma_ones_below_bound(v, 64);
}

proof fn lemma_ones_below_bound(v: u64, n: nat)
    ensures
        ones_below(v, n) <= n,
    decreases n,
{
    if n > 0 {
        lemma_ones_below_bound(v, (n - 1) as nat);
    }
}

/// The mask 0 has no one bit.
pub proof fn lemma_no_bits()
    ensures
        set_of(0) == Set::<nat>::empty(),
{
    assert forall|i: nat| !bit_is_set(0u64, i) by {
        if i < 64 {
            lemma_bit_of_zero(i as u64);
        }
    }
    assert(set_of(0u64) =~= Set::<nat>::empty());
}

/// Masks without a common one bit have disjoint sets of one bits.
pub proof fn lemma_disjoint_masks(a: u64, b: u64)
    requires
        a & b == 0,
    ensures
        set_of(a).disjoint(set_of(b)),
{
    assert forall|j: nat| !(set_of(a).contains(j) && set_of(b).contains(j)) by {
        if j < 64 {
            lemma_bit_of_and(a, b, j as u64);
            lemma_bit_of_zero(j as u64);
        }
    }
}

/// A set of positions below 64 is finite and has at most 64 members.
pub proof fn lemma_below_64_bound(s: Set<nat>)
    requires
        forall|k: nat| s.contains(k) ==> k < 64,
    ensures
        s.finite(),
        s.len() <= 64,
{
    let full = set_of(0xffff_ffff_ffff_ffffu64);
    lemma_set_of_counts(0xffff_ffff_ffff_ffffu64);
    assert forall|k: nat| s.contains(k) implies full.contains(k) by {
        lemma_bit_of_full(k as u64);
    }
    vstd::set_lib::lemma_len_subset(s, full);
}

proof fn lemma_bit_of_full(j: u64)
    by (bit_vector)
    requires
        j < 64,
    ensures
        (0xffff_ffff_ffff_ffffu64 >> j) & 1 == 1,
{
}

/// A set of up to 64 flags packed into one `u64`.
#[derive(Clone, Copy, PartialEq, Eq, Structural, PartialOrd, Ord, Hash, Debug)]
pub struct BitField(u64);

impl View for BitField {
    type V = Set<nat>;

    closed spec fn view(&self) -> Set<nat> {
        set_of(self.0)
    }
}

impl BitField {
    /// The underlying 64-bit mask.
    pub closed spec fn mask(self) -> u64 {
        self.0
    }

    /// The view is the set of one bits of the mask; it is finite, holds only
    /// positions below 64, and determines the mask.
    pub proof fn lemma_view(self)
        ensures
            self@ == set_of(self.mask()),
            self.mask() == mask_of(self@),
            self@.finite(),
            self@.len() <= 64,
            forall|i: nat| self@.contains(i) ==> i < 64,
    {
        lemma_mask_of_set(self.0);
        lemma_set_of_counts(self.0);
    }

    /// Two bit fields with the same members are equal.
    pub proof fn lemma_equal_views(self, other: BitField)
        requires
            self@ == other@,
        ensures
            self == other,
    {
        lemma_set_of_injective(self.0, other.0);
    }

    pub fn new(value: u64) -> (r: BitField)
        ensures
            r.mask() == value,
            r@ == set_of(value),
    {
        BitField(value)
    }

    /// The bit field with no bit set.
    pub fn empty() -> (r: BitField)
        ensures
            r.mask() == 0,
            r@ == Set::<nat>::empty(),
    {
        proof {
            lemma_no_bits();
        }
        BitField(0)
    }

    /// The mask as a plain integer.
    pub fn value(self) -> (r: u64)
        ensures
            r == self.mask(),
    {
        self.0
    }

    pub fn get(self, index: usize) -> (r: bool)
        requires
            index < 64,
        ensures
            r == self@.contains(index as nat),
    {
        proof {
            lemma_bit_test(self.0, index as u64);
        }
        (self.0 & (1u64 << (index as u64))) != 0
    }

    pub fn set(&mut self, index: usize)
        requires
            index < 64,
        ensures
            final(self)@ == old(self)@.insert(index as nat),
    {
        proof {
            let v = self.0;
            let w: u64 = v | (1u64 << (index as u64));
            assert forall|j: nat| set_of(w).contains(j) == set_of(v).insert(index as nat).contains(
                j,
            ) by {
                if j < 64 {
                    lemma_bit_after_set(v, index as u64, j as u64);
                }
            }
            assert(set_of(w) =~= set_of(v).insert(index as nat));
        }
        self.0 = self.0 | (1u64 << (index as u64));
    }

    pub fn unset(&mut self, index: usize)
        requires
            index < 64,
        ensures
            final(self)@ == old(self)@.remove(index as nat),
    {
        proof {
            let v = self.0;
            assert forall|j: nat| bit_is_set(v & !(1u64 << (index as u64)), j) == (j != index
                && bit_is_set(v, j)) by {
                if j < 64 {
                    lemma_bit_after_unset(v, index as u64, j as u64);
                }
            }
            assert(set_of(v & !(1u64 << (index as u64))) =~= set_of(v).remove(index as nat));
        }
        self.0 = self.0 & !(1u64 << (index as u64));
    }

    pub fn toggle(&mut self, index: usize)
        requires
            index < 64,
        ensures
            final(self)@ == if old(self)@.contains(index as nat) {
                old(self)@.remove(index as nat)
            } else {
                old(self)@.insert(index as nat)
            },
    {
        proof {
            let v = self.0;
            assert forall|j: nat| bit_is_set(v ^ (1u64 << (index as u64)), j) == (bit_is_set(v, j)
                != (j == index)) by {
                if j < 64 {
                    lemma_bit_after_toggle(v, index as u64, j as u64);
                }
            }
            if set_of(v).contains(index as nat) {
                assert(set_of(v ^ (1u64 << (index as u64))) =~= set_of(v).remove(index as nat));
            } else {
                assert(set_of(v ^ (1u64 << (index as u64))) =~= set_of(v).insert(index as nat));
            }
        }
        self.0 = self.0 ^ (1u64 << (index as u64));
    }

    pub fn is_empty(self) -> (r: bool)
        ensures
            r == (self@ == Set::<nat>::empty()),
            r == (self@.len() == 0),
            r == (self.mask() == 0),
    {
        proof {
            lemma_set_of_counts(self.0);
            if self.0 == 0 {
                lemma_no_bits();
            } else {
                let t: u32 = self.0.trailing_zeros();
                assert(t < 64);
                assert(bit_is_set(self.0, t as nat));
                assert(set_of(self.0).contains(t as nat));
            }
        }
        self.0 == 0
    }

    pub fn count(self) -> (r: u32)
        ensures
            r == self@.len(),
            r <= 64,
    {
        proof {
            lemma_set_of_counts(self.0);
        }
        self.0.count_ones()
    }

    /// The lowest member, if there is any.
    pub fn first(self) -> (r: Option<u32>)
        ensures
            match r {
                Some(i) => self@.contains(i as nat) && forall|j: nat|
                    self@.contains(j) ==> i <= j,
                None => self@ == Set::<nat>::empty(),
            },
    {
        if self.is_empty() {
            return None;
        }
        let t: u32 = self.0.trailing_zeros();
        proof {
            assert(t < 64);
            assert(bit_is_set(self.0, t as nat));
            assert forall|j: nat| set_of(self.0).contains(j) implies t <= j by {
                if j < t {
                    assert((self.0 >> (j as u64)) & 1 == 0);
                }
            }
        }
        Some(t)
    }

    /// The highest member, if there is any.
    pub fn last(self) -> (r: Option<u32>)
        ensures
            match r {
                Some(i) => self@.contains(i as nat) && forall|j: nat|
                    self@.contains(j) ==> j <= i,
                None => self@ == Set::<nat>::empty(),
            },
    {
        if self.is_empty() {
            return None;
        }
        let z: u32 = self.0.leading_zeros();
        proof {
            assert(z < 64);
            let top: u64 = (63 - z) as u64;
            lemma_low_bit_is_zero_or_one(self.0 >> top);
            assert(bit_is_set(self.0, top as nat));
            assert forall|j: nat| set_of(self.0).contains(j) implies j <= top by {
                if j > top {
                    assert((self.0 >> (j as u64)) & 1 == 0);
                }
            }
        }
        Some(63 - z)
    }

    pub fn intersection(self, other: BitField) -> (r: BitField)
        ensures
            r@ == self@.intersect(other@),
            r.mask() == self.mask() & other.mask(),
    {
        proof {
            assert forall|j: nat| bit_is_set(self.0 & other.0, j) == (bit_is_set(self.0, j)
                && bit_is_set(other.0, j)) by {
                if j < 64 {
                    lemma_bit_of_and(self.0, other.0, j as u64);
                }
            }
            assert(set_of(self.0 & other.0) =~= set_of(self.0).intersect(set_of(other.0)));
        }
        BitField(self.0 & other.0)
    }

    pub fn union(self, other: BitField) -> (r: BitField)
        ensures
            r@ == self@.union(other@),
            r.mask() == self.mask() | other.mask(),
    {
        proof {
            assert forall|j: nat| bit_is_set(self.0 | other.0, j) == (bit_is_set(self.0, j)
                || bit_is_set(other.0, j)) by {
                if j < 64 {
                    lemma_bit_of_or(self.0, other.0, j as u64);
                }
            }
            assert(set_of(self.0 | other.0) =~= set_of(self.0).union(set_of(other.0)));
        }
        BitField(self.0 | other.0)
    }

    pub fn difference(self, other: BitField) -> (r: BitField)
        ensures
            r@ == self@.difference(other@),
            r.mask() == self.mask() & !other.mask(),
    {
        proof {
            assert forall|j: nat| bit_is_set(self.0 & !other.0, j) == (bit_is_set(self.0, j)
                && !bit_is_set(other.0, j)) by {
                if j < 64 {
                    lemma_bit_of_and_not(self.0, other.0, j as u64);
                }
            }
            assert(set_of(self.0 & !other.0) =~= set_of(self.0).difference(set_of(other.0)));
        }
        BitField(self.0 & !other.0)
    }

    pub fn symmetric_difference(self, other: BitField) -> (r: BitField)
        ensures
            r@ == self@.difference(other@).union(other@.difference(self@)),
            r.mask() == self.mask() ^ other.mask(),
    {
        proof {
            assert forall|j: nat| bit_is_set(self.0 ^ other.0, j) == (bit_is_set(self.0, j)
                != bit_is_set(other.0, j)) by {
                if j < 64 {
                    lemma_bit_of_xor(self.0, other.0, j as u64);
                }
            }
            assert(set_of(self.0 ^ other.0) =~= set_of(self.0).difference(
                set_of(other.0),
            ).union(set_of(other.0).difference(set_of(self.0))));
        }
        BitField(self.0 ^ other.0)
    }

    pub fn is_subset(self, other: BitField) -> (r: bool)
        ensures
            r == self@.subset_of(other@),
    {
        proof {
            let both: u64 = self.0 & other.0;
            assert forall|j: nat| bit_is_set(both, j) == (bit_is_set(self.0, j) && bit_is_set(
                other.0,
                j,
            )) by {
                if j < 64 {
                    lemma_bit_of_and(self.0, other.0, j as u64);
                }
            }
            if set_of(self.0).subset_of(set_of(other.0)) {
                assert(set_of(both) =~= set_of(self.0));
                lemma_set_of_injective(both, self.0);
            }
        }
        (self.0 & other.0) == self.0
    }

    pub fn is_superset(self, other: BitField) -> (r: bool)
        ensures
            r == other@.subset_of(self@),
    {
        proof {
            let both: u64 = self.0 & other.0;
            assert forall|j: nat| bit_is_set(both, j) == (bit_is_set(self.0, j) && bit_is_set(
                other.0,
                j,
            )) by {
                if j < 64 {
                    lemma_bit_of_and(self.0, other.0, j as u64);
                }
            }
            if set_of(other.0).subset_of(set_of(self.0)) {
                assert(set_of(both) =~= set_of(other.0));
                lemma_set_of_injective(both, other.0);
            }
        }
        (self.0 & other.0) == other.0
    }
}

impl BitField {
    /// The members in ascending order.
    pub fn positions(self) -> (r: Vec<u32>)
        ensures
            r.len() == self@.len(),
            forall|i: int, j: int| 0 <= i < j < r.len() ==> r[i] < r[j],
            forall|i: int| 0 <= i < r.len() ==> self@.contains(#[trigger] r[i] as nat),
            forall|k: nat| self@.contains(k) ==> r@.contains(k as u32),
    {
        let mut positions: Vec<u32> = Vec::new();
        let mut value: u64 = self.0;
        proof {
            lemma_set_of_counts(self.0);
        }
        while value != 0
            invariant
                set_of(value).subset_of(set_of(self.0)),
                set_of(self.0).finite(),
                positions.len() + set_of(value).len() == set_of(self.0).len(),
                forall|i: int, j: int| 0 <= i < j < positions.len() ==> positions[i] < positions[j],
                forall|i: int|
                    0 <= i < positions.len() ==> set_of(self.0).contains(
                        #[trigger] positions[i] as nat,
                    ),
                forall|i: int, k: nat|
                    0 <= i < positions.len() && #[trigger] set_of(value).contains(k) ==> (
                    #[trigger] positions[i]) < k,
                forall|k: nat|
                    set_of(self.0).contains(k) && !set_of(value).contains(k) ==> positions@.contains(
                        k as u32,
                    ),
            decreases value,
        {
            let index: u32 = value.trailing_zeros();
            let ghost before = value;
            let ghost listed = positions@;
            proof {
                assert(index < 64);
                assert(bit_is_set(before, index as nat));
                lemma_unset_lowers(before, index as u64);
                lemma_set_of_counts(before);
                assert forall|j: nat| bit_is_set(before & !(1u64 << (index as u64)), j) == (j
                    != index && bit_is_set(before, j)) by {
                    if j < 64 {
                        lemma_bit_after_unset(before, index as u64, j as u64);
                    }
                }
                assert(set_of(before & !(1u64 << (index as u64))) =~= set_of(before).remove(
                    index as nat,
                ));
                assert forall|k: nat| set_of(before).contains(k) implies index <= k by {
                    if k < index {
                        assert((before >> (k as u64)) & 1 == 0);
                    }
                }
            }
            positions.push(index);
            value = value & !(1u64 << (index as u64));
            proof {
                assert forall|k: nat|
                    set_of(self.0).contains(k) && !set_of(value).contains(
                        k,
                    ) implies positions@.contains(k as u32) by {
                    if k == index {
                        assert(positions@[listed.len() as int] == k as u32);
                    } else {
                        assert(listed.contains(k as u32));
                        let i = choose|i: int| 0 <= i < listed.len() && listed[i] == k as u32;
                        assert(positions@[i] == k as u32);
                    }
                }
            }
        }
        proof {
            lemma_no_bits();
            assert forall|k: nat| set_of(self.0).contains(k) implies positions@.contains(
                k as u32,
            ) by {
                assert(!set_of(value).contains(k));
            }
        }
        positions
    }
}

/// The lowest `n` bits of `v` as binary digits, the highest of them first.
pub open spec fn binary_digits(v: u64, n: nat) -> Seq<char>
    decreases n,
{
    if n == 0 {
        Seq::empty()
    } else {
        seq![
            if bit_is_set(v, (n - 1) as nat) {
                '1'
            } else {
                '0'
            },
        ] + binary_digits(v, (n - 1) as nat)
    }
}

impl BitField {
    /// The mask as 64 binary digits, the highest bit first.
    pub fn to_string(&self) -> (r: String)
        ensures
            r@ == binary_digits(self.mask(), 64),
            r@.len() == 64,
    {
        let mut text = String::new();
        let mut n: usize = 64;
        while n > 0
            invariant
                n <= 64,
                text@.len() == 64 - n,
                text@ + binary_digits(self.0, n as nat) == binary_digits(self.0, 64),
            decreases n,
        {
            let ghost before = text@;
            n -= 1;
            if self.get(n) {
                text.push('1');
            } else {
                text.push('0');
            }
            proof {
                self.lemma_view();
                assert(text@ + binary_digits(self.0, n as nat) =~= before + binary_digits(
                    self.0,
                    (n + 1) as nat,
                ));
            }
        }
        assert(text@ + binary_digits(self.0, 0) =~= text@);
        text
    }
}

impl core::ops::BitAnd for BitField {
    type Output = BitField;

    fn bitand(self, rhs: BitField) -> (r: BitField) {
        self.intersection(rhs)
    }
}

impl vstd::std_specs::ops::BitAndSpecImpl for BitField {
    open spec fn obeys_bitand_spec() -> bool {
        true
    }

    open spec fn bitand_req(self, rhs: BitField) -> bool {
        true
    }

    closed spec fn bitand_spec(self, rhs: BitField) -> BitField {
        BitField(self.0 & rhs.0)
    }
}

impl core::ops::BitOr for BitField {
    type Output = BitField;

    fn bitor(self, rhs: BitField) -> (r: BitField) {
        self.union(rhs)
    }
}

impl vstd::std_specs::ops::BitOrSpecImpl for BitField {
    open spec fn obeys_bitor_spec() -> bool {
        true
    }

    open spec fn bitor_req(self, rhs: BitField) -> bool {
        true
    }

    closed spec fn bitor_spec(self, rhs: BitField) -> BitField {
        BitField(self.0 | rhs.0)
    }
}

impl core::ops::BitXor for BitField {
    type Output = BitField;

    fn bitxor(self, rhs: BitField) -> (r: BitField) {
        self.symmetric_difference(rhs)
    }
}

impl vstd::std_specs::ops::BitXorSpecImpl for BitField {
    open spec fn obeys_bitxor_spec() -> bool {
        true
    }

    open spec fn bitxor_req(self, rhs: BitField) -> bool {
        true
    }

    closed spec fn bitxor_spec(self, rhs: BitField) -> BitField {
        BitField(self.0 ^ rhs.0)
    }
}

impl core::ops::Not for BitField {
    type Output = BitField;

    fn not(self) -> (r: BitField) {
        BitField(!self.0)
    }
}

impl vstd::std_specs::ops::NotSpecImpl for BitField {
    open spec fn obeys_not_spec() -> bool {
        true
    }

    open spec fn not_req(self) -> bool {
        true
    }

    closed spec fn not_spec(self) -> BitField {
        BitField(!self.0)
    }
}

proof fn lemma_bit_of_not(a: u64, j: u64)
    by (bit_vector)
    requires
        j < 64,
    ensures
        (((!a) >> j) & 1 == 1) == !((a >> j) & 1 == 1),
{
}

/// The operators `&`, `|`, `^` and `!` on bit fields are intersection,
/// union, symmetric difference and complement within the 64 positions.
pub proof fn lemma_operators(a: BitField, b: BitField)
    ensures
        vstd::std_specs::ops::BitAndSpec::bitand_spec(a, b)@ == a@.intersect(b@),
        vstd::std_specs::ops::BitOrSpec::bitor_spec(a, b)@ == a@.union(b@),
        vstd::std_specs::ops::BitXorSpec::bitxor_spec(a, b)@ == a@.difference(b@).union(
            b@.difference(a@),
        ),
        vstd::std_specs::ops::NotSpec::not_spec(a)@ == Set::new(|i: nat| i < 64).difference(a@),
{
    assert forall|j: nat|
        bit_is_set(a.0 & b.0, j) == (bit_is_set(a.0, j) && bit_is_set(b.0, j)) by {
        if j < 64 {
            lemma_bit_of_and(a.0, b.0, j as u64);
        }
    }
    assert forall|j: nat|
        bit_is_set(a.0 | b.0, j) == (bit_is_set(a.0, j) || bit_is_set(b.0, j)) by {
        if j < 64 {
            lemma_bit_of_or(a.0, b.0, j as u64);
        }
    }
    assert forall|j: nat|
        bit_is_set(a.0 ^ b.0, j) == (bit_is_set(a.0, j) != bit_is_set(b.0, j)) by {
        if j < 64 {
            lemma_bit_of_xor(a.0, b.0, j as u64);
        }
    }
    assert forall|j: nat| bit_is_set(!a.0, j) == (j < 64 && !bit_is_set(a.0, j)) by {
        if j < 64 {
            lemma_bit_of_not(a.0, j as u64);
        }
    }
    assert(set_of(a.0 & b.0) =~= set_of(a.0).intersect(set_of(b.0)));
    assert(set_of(a.0 | b.0) =~= set_of(a.0).union(set_of(b.0)));
    assert(set_of(a.0 ^ b.0) =~= set_of(a.0).difference(set_of(b.0)).union(
        set_of(b.0).difference(set_of(a.0)),
    ));
    assert(set_of(!a.0) =~= Set::new(|i: nat| i < 64).difference(set_of(a.0)));
}

impl Default for BitField {
    fn default() -> (r: BitField)
        ensures
            r.mask() == 0,
            r@ == Set::<nat>::empty(),
    {
        BitField::empty()
    }
}

impl From<u64> for BitField {
    fn from(value: u64) -> (r: BitField) {
        BitField(value)
    }
}

impl vstd::std_specs::convert::FromSpecImpl<u64> for BitField {
    open spec fn obeys_from_spec() -> bool {
        true
    }

    closed spec fn from_spec(value: u64) -> BitField {
        BitField(value)
    }
}

impl From<BitField> for u64 {
    fn from(bitfield: BitField) -> (r: u64) {
        bitfield.0
    }
}

impl vstd::std_specs::convert::FromSpecImpl<BitField> for u64 {
    open spec fn obeys_from_spec() -> bool {
        true
    }

    closed spec fn from_spec(bitfield: BitField) -> u64 {
        bitfield.0
    }
}

/// Converting a mask to a bit field and back keeps it; the bit field made
/// from a mask has that mask.
pub proof fn lemma_conversions(value: u64, bitfield: BitField)
    ensures
        <BitField as vstd::std_specs::convert::FromSpec<u64>>::from_spec(value).mask() == value,
        <u64 as vstd::std_specs::convert::FromSpec<BitField>>::from_spec(bitfield)
            == bitfield.mask(),
{
}

} // verus!
