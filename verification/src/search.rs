//! Binary-search inversion of monotone tables.
//!
//! Inverse-CDF sampling turns a uniform variate into an angle or a radial
//! momentum by locating the variate's bracket in a cumulative table.  The
//! search works for any element type with a partial order; its contract is
//! exact whenever the order obeys its specification.

use core::cmp::Ordering;
use vstd::laws_cmp::obeys_partial_cmp_spec_properties;
use vstd::laws_eq::obeys_concrete_eq;
use vstd::prelude::*;
use vstd::std_specs::cmp::PartialOrdSpec;
use vstd::std_specs::cmp::PartialEqSpec;

verus! {

/// `a` compares less than or equal to `b`.
pub open spec fn cmp_le<T: PartialOrd>(a: T, b: T) -> bool {
    a.partial_cmp_spec(&b) matches Some(Ordering::Less | Ordering::Equal)
}

/// `a` compares greater than `b`.
pub open spec fn cmp_gt<T: PartialOrd>(a: T, b: T) -> bool {
    a.partial_cmp_spec(&b) == Some(Ordering::Greater)
}

/// Every pair of entries, in order, compares less-or-equal: the table is
/// non-decreasing.
pub open spec fn table_sorted<T: PartialOrd>(s: Seq<T>) -> bool {
    forall|k: int, l: int| 0 <= k <= l < s.len() ==> cmp_le(#[trigger] s[k], #[trigger] s[l])
}

/// Every entry of the table is comparable with `value`.
pub open spec fn comparable_with<T: PartialOrd>(s: Seq<T>, value: T) -> bool {
    forall|k: int| 0 <= k < s.len() ==> (#[trigger] s[k].partial_cmp_spec(&value)) is Some
}

/// The hypotheses under which the search is owed an exact bracket: a
/// lawful order, a sorted table whose entries are comparable with the
/// value, and a value within the table's range.
pub open spec fn bracket_premise<T: PartialOrd>(s: Seq<T>, value: T) -> bool {
    &&& T::obeys_partial_cmp_spec()
    &&& table_sorted(s)
    &&& comparable_with(s, value)
    &&& s.len() >= 1
    &&& cmp_le(s[0], value)
    &&& cmp_gt(s[s.len() - 1], value)
}

/// Index `i` brackets `value`: `s[i] <= value < s[i + 1]`.
pub open spec fn brackets<T: PartialOrd>(s: Seq<T>, value: T, i: int) -> bool {
    &&& 0 <= i
    &&& i + 1 < s.len()
    &&& cmp_le(s[i], value)
    &&& cmp_gt(s[i + 1], value)
}

/// Find the entry of a non-decreasing table whose bracket holds `value`:
/// the returned index `r` satisfies `table[r] <= value < table[r + 1]`
/// whenever the table and the value satisfy `bracket_premise`.  On other
/// inputs (an unsorted table, a value out of range, an order that breaks
/// its own laws) the search still terminates and returns an index below
/// the table's length.
pub fn binary_search<T: PartialOrd>(sorted_array: &[T], value: T) -> (r: usize)
    requires
        sorted_array@.len() >= 1,
    ensures
        r < sorted_array@.len(),
        sorted_array@.len() >= 2 ==> r + 1 < sorted_array@.len(),
        bracket_premise(sorted_array@, value) ==> brackets(sorted_array@, value, r as int),
{
    let ghost s = sorted_array@;
    let mut i: usize = 0;
    let mut j: usize = sorted_array.len() - 1;

    while j - i > 1
        invariant
            i <= j < s.len(),
            s.len() >= 2 ==> i < j,
            s == sorted_array@,
            bracket_premise(s, value) ==> cmp_le(s[i as int], value) && cmp_gt(s[j as int], value),
        decreases j - i,
    {
        let m = i + (j - i) / 2;
        let above = match sorted_array[m].partial_cmp(&value) {
            Some(Ordering::Greater) => true,
            _ => false,
        };
        if above {
            j = m;
        } else {
            i = m;
        }
    }

    i
}

/// The bracket of a value in a non-decreasing table is unique: two indices
/// that both bracket the same value are equal.  Uniqueness needs the
/// order to obey its laws (transitivity, exchange of `Less` and `Greater`
/// under exchange of arguments, and an `Equal` verdict meaning equality).
pub proof fn lemma_bracket_unique<T: PartialOrd>(s: Seq<T>, value: T, i: int, j: int)
    requires
        obeys_partial_cmp_spec_properties::<T>(),
        obeys_concrete_eq::<T>(),
        table_sorted(s),
        brackets(s, value, i),
        brackets(s, value, j),
    ensures
        i == j,
{
    if i < j {
        // s[i + 1] <= s[j] by sortedness, s[j] <= value by the bracket at
        // j, so s[i + 1] <= value, against value < s[i + 1].
        lemma_cmp_le_not_gt(s[i + 1], s[j], value);
        assert(cmp_le(s[i + 1], s[j]));
        assert(!cmp_gt(s[i + 1], value));
    } else if j < i {
        lemma_cmp_le_not_gt(s[j + 1], s[i], value);
        assert(cmp_le(s[j + 1], s[i]));
        assert(!cmp_gt(s[j + 1], value));
    }
}

/// A lawful order has no cycle `a <= b <= v < a`: if `a <= b` and
/// `b <= v` then `a > v` cannot hold.
proof fn lemma_cmp_le_not_gt<T: PartialOrd>(a: T, b: T, v: T)
    requires
        obeys_partial_cmp_spec_properties::<T>(),
        obeys_concrete_eq::<T>(),
    ensures
        cmp_le(a, b) && cmp_le(b, v) ==> !cmp_gt(a, v),
{
    reveal(obeys_partial_cmp_spec_properties);
    reveal(obeys_concrete_eq);
    if cmp_le(a, b) && cmp_le(b, v) && cmp_gt(a, v) {
        if a.partial_cmp_spec(&b) == Some(Ordering::Equal) {
            assert(a.eq_spec(&b));
            assert(a == b);
        } else {
            // a < b; v < a gives v < b, so b > v, against b <= v.
            assert(a.partial_cmp_spec(&b) == Some(Ordering::Less));
            assert(v.partial_cmp_spec(&a) == Some(Ordering::Less));
            assert(v.partial_cmp_spec(&b) == Some(Ordering::Less));
            assert(b.partial_cmp_spec(&v) == Some(Ordering::Greater));
        }
    }
}

} // verus!
