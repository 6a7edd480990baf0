use physics_simulation::matrix::mat4_to_uniform;

#[test]
fn transposes_columns_into_rows() {
    let cols = [[1, 2, 3, 4], [5, 6, 7, 8], [9, 10, 11, 12], [13, 14, 15, 16]];
    let rows = mat4_to_uniform(cols);
    assert_eq!(rows[0], [1, 5, 9, 13]);
    assert_eq!(rows[3], [4, 8, 12, 16]);
    assert_eq!(rows[1][2], 10);
}

#[test]
fn converting_twice_gives_back_the_matrix() {
    let cols = [[1.5f32, 2.0, 3.0, 4.0], [5.0, 6.0, 7.0, 8.0], [9.0, 10.0, 11.0, 12.0], [13.0, 14.0, 15.0, 16.0]];
    assert_eq!(mat4_to_uniform(mat4_to_uniform(cols)), cols);
}
