use vstd::prelude::*;

verus! {

/// `rows` holds, row by row, the 4x4 matrix that `columns` holds column by
/// column: `rows[r][c] == columns[c][r]`.
pub open spec fn is_transpose<T>(columns: [[T; 4]; 4], rows: [[T; 4]; 4]) -> bool {
    forall|r: int, c: int| 0 <= r < 4 && 0 <= c < 4 ==> #[trigger] rows@[r]@[c] == columns@[c]@[r]
}

/// The rows of a 4x4 matrix stored as four columns, as the shaders take a
/// matrix uniform.
pub fn mat4_to_uniform<T: Copy>(columns: [[T; 4]; 4]) -> (rows: [[T; 4]; 4])
    ensures
        is_transpose(columns, rows),
        forall|r: int, c: int|
            0 <= r < 4 && 0 <= c < 4 ==> #[trigger] rows@[r]@[c] == columns@[c]@[r],
{
    [
        [columns[0][0], columns[1][0], columns[2][0], columns[3][0]],
        [columns[0][1], columns[1][1], columns[2][1], columns[3][1]],
        [columns[0][2], columns[1][2], columns[2][2], columns[3][2]],
        [columns[0][3], columns[1][3], columns[2][3], columns[3][3]],
    ]
}

/// Converting twice gives back the matrix: reading the rows as columns and
/// converting again yields the original columns.
pub proof fn lemma_mat4_to_uniform_twice<T>(
    columns: [[T; 4]; 4],
    rows: [[T; 4]; 4],
    again: [[T; 4]; 4],
)
    requires
        is_transpose(columns, rows),
        is_transpose(rows, again),
    ensures
        again == columns,
{
    broadcast use vstd::array::axiom_array_ext_equal;

    assert forall|c: int| 0 <= c < 4 implies #[trigger] again@[c] == columns@[c] by {
        assert forall|r: int| 0 <= r < 4 implies again@[c]@[r] == columns@[c]@[r] by {
            assert(again@[c]@[r] == rows@[r]@[c]);
        }
        assert(again@[c] =~= columns@[c]);
    }
    assert(again =~= columns);
}

} // verus!
