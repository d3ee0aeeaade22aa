use vstd::prelude::*;

verus! {

/// Every sample holds exactly `dim` components.
pub open spec fn rectangular<C>(samples: Seq<Vec<C>>, dim: nat) -> bool {
    forall|i: int| 0 <= i < samples.len() ==> (#[trigger] samples[i])@.len() == dim
}

/// A copy of `v`, element by element.
pub fn copy_state<C: Copy>(v: &Vec<C>) -> (r: Vec<C>)
    ensures
        r@ == v@,
{
    let mut r: Vec<C> = Vec::with_capacity(v.len());
    let mut i: usize = 0;
    while i < v.len()
        invariant
            i <= v@.len(),
            r@ =~= v@.subrange(0, i as int),
        decreases v@.len() - i,
    {
        r.push(v[i]);
        i += 1;
    }
    assert(r@ =~= v@);
    r
}

/// Turns time-ordered samples into one series per component:
/// `r[j][i]` is component `j` of sample `i`.
pub fn component_series<C: Copy>(samples: &Vec<Vec<C>>, dim: usize) -> (r: Vec<Vec<C>>)
    requires
        rectangular(samples@, dim as nat),
    ensures
        r@.len() == dim,
        forall|j: int| 0 <= j < dim ==> (#[trigger] r@[j])@.len() == samples@.len(),
        forall|j: int, i: int|
            0 <= j < dim && 0 <= i < samples@.len() ==> #[trigger] r@[j]@[i] == samples@[i]@[j],
{
    let mut r: Vec<Vec<C>> = Vec::new();
    let mut j: usize = 0;
    while j < dim
        invariant
            j <= dim,
            rectangular(samples@, dim as nat),
            r@.len() == j,
            forall|jj: int| 0 <= jj < j ==> (#[trigger] r@[jj])@.len() == samples@.len(),
            forall|jj: int, i: int|
                0 <= jj < j && 0 <= i < samples@.len() ==> #[trigger] r@[jj]@[i] == samples@[i]@[jj],
        decreases dim - j,
    {
        let mut column: Vec<C> = Vec::with_capacity(samples.len());
        let mut i: usize = 0;
        while i < samples.len()
            invariant
                j < dim,
                i <= samples@.len(),
                rectangular(samples@, dim as nat),
                column@.len() == i,
                forall|ii: int| 0 <= ii < i ==> #[trigger] column@[ii] == samples@[ii]@[j as int],
            decreases samples@.len() - i,
        {
            assert(samples@[i as int]@.len() == dim);
            column.push(samples[i][j]);
            i += 1;
        }
        r.push(column);
        j += 1;
    }
    r
}

} // verus!
