use vstd::prelude::*;

verus! {

/// Every element of `v` is a value that `draw` may hand out.
pub open spec fn all_drawn<T, D: Fn() -> T>(draw: D, v: Seq<T>) -> bool {
    forall|i: int| 0 <= i < v.len() ==> #[trigger] draw.ensures((), v[i])
}

/// A vector of `size` values, each taken from a fresh call of `draw`.
pub fn create_random_vector<T, D: Fn() -> T>(size: usize, draw: &D) -> (r: Vec<T>)
    requires
        draw.requires(()),
    ensures
        r@.len() == size,
        all_drawn(*draw, r@),
{
    let mut v: Vec<T> = Vec::new();
    let mut i: usize = 0;
    while i < size
        invariant
            draw.requires(()),
            0 <= i <= size,
            v@.len() == i,
            all_drawn(*draw, v@),
        decreases size - i,
    {
        let x = draw();
        v.push(x);
        i = i + 1;
    }
    v
}

/// A matrix of `rows` rows of `cols` values each, every value taken from a fresh
/// call of `draw`, row by row.
pub fn create_random_matrix<T, D: Fn() -> T>(
    rows: usize,
    cols: usize,
    draw: &D,
) -> (r: Vec<Vec<T>>)
    requires
        draw.requires(()),
    ensures
        r@.len() == rows,
        forall|j: int|
            0 <= j < rows ==> (#[trigger] r@[j])@.len() == cols && all_drawn(*draw, r@[j]@),
{
    let mut matrix: Vec<Vec<T>> = Vec::new();
    let mut j: usize = 0;
    while j < rows
        invariant
            draw.requires(()),
            0 <= j <= rows,
            matrix@.len() == j,
            forall|k: int|
                0 <= k < j ==> (#[trigger] matrix@[k])@.len() == cols && all_drawn(
                    *draw,
                    matrix@[k]@,
                ),
        decreases rows - j,
    {
        let row = create_random_vector(cols, draw);
        matrix.push(row);
        j = j + 1;
    }
    matrix
}

} // verus!
