use vstd::prelude::*;

verus! {

/// Number of moments in the second-order hierarchy's state vector.
pub const HIERARCHY_LEN: usize = 13;

/// Position of the `<sz>` moment.
pub const SZ: usize = 3;

/// Position of the `<sz sz>` moment.
pub const SZ_SZ: usize = 4;

/// Sets the initial moments of the second-order hierarchy: the two spin
/// inversion moments `<sz>` and `<sz sz>` to `one`, the other eleven to `zero`.
/// Entries past the hierarchy are left as they were.
pub fn corr_init_vec_ada_order_2__2e_2<C: Copy>(init_vec: &mut Vec<C>, zero: C, one: C)
    requires
        old(init_vec)@.len() >= HIERARCHY_LEN,
    ensures
        final(init_vec)@.len() == old(init_vec)@.len(),
        final(init_vec)@[SZ as int] == one,
        final(init_vec)@[SZ_SZ as int] == one,
        forall|j: int|
            0 <= j < HIERARCHY_LEN && j != SZ && j != SZ_SZ ==> #[trigger] final(init_vec)@[j] == zero,
        forall|j: int|
            HIERARCHY_LEN <= j < old(init_vec)@.len() ==> #[trigger] final(init_vec)@[j] == old(
                init_vec,
            )@[j],
{
    let mut j: usize = 0;
    while j < HIERARCHY_LEN
        invariant
            j <= HIERARCHY_LEN,
            init_vec@.len() == old(init_vec)@.len(),
            init_vec@.len() >= HIERARCHY_LEN,
            forall|i: int|
                0 <= i < j ==> #[trigger] init_vec@[i] == if i == SZ || i == SZ_SZ {
                    one
                } else {
                    zero
                },
            forall|i: int| j <= i < init_vec@.len() ==> #[trigger] init_vec@[i] == old(init_vec)@[i],
        decreases HIERARCHY_LEN - j,
    {
        if j == SZ || j == SZ_SZ {
            init_vec.set(j, one);
        } else {
            init_vec.set(j, zero);
        }
        j += 1;
    }
}

} // verus!
