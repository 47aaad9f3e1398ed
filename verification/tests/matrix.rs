use fat_ptr::{Error, Mat, MatMut, Matrix};

fn limit() -> usize {
    1usize << (usize::BITS / 2)
}

fn sample() -> Matrix<i32> {
    let mut matrix: Matrix<i32> = Matrix::new(3, 4).unwrap();
    *matrix.index_mut([0, 1]).unwrap() = 1;
    *matrix.index_mut([2, 2]).unwrap() = 4;
    matrix
}

#[test]
fn new_matrix_has_the_dimensions_asked_for() {
    let matrix: Matrix<u8> = Matrix::new(3, 4).unwrap();
    assert_eq!(matrix.rows(), 3);
    assert_eq!(matrix.cols(), 4);
    let flat: Matrix<u8> = Matrix::new(1, 17).unwrap();
    assert_eq!((flat.rows(), flat.cols()), (1, 17));
}

#[test]
fn new_matrix_holds_default_values() {
    let matrix: Matrix<i32> = Matrix::new(3, 4).unwrap();
    for i in 0..3 {
        for j in 0..4 {
            assert_eq!(matrix.index([i, j]), Ok(&0));
        }
    }
    let words: Matrix<String> = Matrix::new(2, 2).unwrap();
    assert_eq!(words.index([1, 1]), Ok(&String::new()));
}

#[test]
fn empty_matrices_have_no_entries() {
    let none: Matrix<u8> = Matrix::new(0, 5).unwrap();
    assert_eq!((none.rows(), none.cols()), (0, 5));
    assert_eq!(none.index([0, 0]), Err(Error::Bounds));
    let thin: Matrix<u8> = Matrix::new(5, 0).unwrap();
    assert_eq!((thin.rows(), thin.cols()), (5, 0));
    assert_eq!(thin.index([0, 0]), Err(Error::Bounds));
    let wide: Matrix<u8> = Matrix::new(0, limit() - 1).unwrap();
    assert_eq!(wide.cols(), limit() - 1);
}

#[test]
fn written_entries_read_back_and_others_stay_default() {
    let matrix = sample();
    assert_eq!(matrix.index([0, 1]), Ok(&1));
    assert_eq!(matrix.index([2, 2]), Ok(&4));
    for i in 0..3 {
        for j in 0..4 {
            if [i, j] != [0, 1] && [i, j] != [2, 2] {
                assert_eq!(matrix.index([i, j]), Ok(&0));
            }
        }
    }
}

#[test]
fn shared_view_shows_the_same_entries() {
    let matrix = sample();
    let mat: Mat<'_, i32> = matrix.as_mat();
    assert_eq!((mat.rows(), mat.cols()), (3, 4));
    assert_eq!(mat.index([0, 1]), Ok(&1));
    assert_eq!(mat.index([2, 2]), Ok(&4));
    assert_eq!(mat.index([0, 0]), Ok(&0));
}

#[test]
fn owned_copy_of_a_view_holds_the_same_entries() {
    let matrix = sample();
    let matrix2 = matrix.as_mat().to_owned_matrix();
    assert_eq!((matrix2.rows(), matrix2.cols()), (3, 4));
    assert_eq!(matrix2.index([0, 0]), Ok(&0));
    assert_eq!(matrix2.index([0, 1]), Ok(&1));
    assert_eq!(matrix2.index([2, 2]), Ok(&4));
    for i in 0..3 {
        for j in 0..4 {
            assert_eq!(matrix2.index([i, j]), matrix.index([i, j]));
        }
    }
}

#[test]
fn owned_copy_does_not_share_storage() {
    let matrix = sample();
    let mut copy = matrix.as_mat().to_owned_matrix();
    *copy.index_mut([0, 1]).unwrap() = 50;
    assert_eq!(copy.index([0, 1]), Ok(&50));
    assert_eq!(matrix.index([0, 1]), Ok(&1));
}

#[test]
fn entries_stand_row_after_row() {
    let mut matrix: Matrix<usize> = Matrix::new(2, 3).unwrap();
    for i in 0..2 {
        for j in 0..3 {
            *matrix.index_mut([i, j]).unwrap() = 10 * i + j;
        }
    }
    for i in 0..2 {
        for j in 0..3 {
            assert_eq!(matrix.index([i, j]), Ok(&(10 * i + j)));
        }
    }
    assert_eq!(matrix.index([1, 0]), Ok(&10));
    assert_eq!(matrix.index([0, 2]), Ok(&2));
}

#[test]
fn reading_outside_the_matrix_is_refused() {
    let matrix = sample();
    assert_eq!(matrix.index([3, 0]), Err(Error::Bounds));
    assert_eq!(matrix.index([0, 4]), Err(Error::Bounds));
    assert_eq!(matrix.index([3, 4]), Err(Error::Bounds));
    assert_eq!(matrix.index([usize::MAX, 0]), Err(Error::Bounds));
    assert_eq!(matrix.index([0, usize::MAX]), Err(Error::Bounds));
    assert_eq!(matrix.index([usize::MAX, usize::MAX]), Err(Error::Bounds));
    let mat = matrix.as_mat();
    assert_eq!(mat.index([3, 0]), Err(Error::Bounds));
    assert_eq!(mat.index([0, 4]), Err(Error::Bounds));
    assert_eq!(mat.index([2, 3]), Ok(&0));
}

#[test]
fn a_column_past_the_end_does_not_wrap_into_the_next_row() {
    let matrix = sample();
    assert_eq!(matrix.index([1, 6]), Err(Error::Bounds));
    assert_eq!(matrix.index([0, 5]), Err(Error::Bounds));
}

#[test]
fn writing_outside_the_matrix_is_refused_and_changes_nothing() {
    let mut matrix = sample();
    assert_eq!(matrix.index_mut([3, 0]).err(), Some(Error::Bounds));
    assert_eq!(matrix.index_mut([0, 4]).err(), Some(Error::Bounds));
    assert_eq!(matrix.index_mut([1, 6]).err(), Some(Error::Bounds));
    {
        let mut view = matrix.as_mat_mut();
        assert_eq!(view.index_mut([3, 3]).err(), Some(Error::Bounds));
        assert_eq!(view.index_mut([2, 4]).err(), Some(Error::Bounds));
    }
    let fresh = sample();
    for i in 0..3 {
        for j in 0..4 {
            assert_eq!(matrix.index([i, j]), fresh.index([i, j]));
        }
    }
}

#[test]
fn exclusive_view_writes_into_the_matrix() {
    let mut matrix = sample();
    {
        let mut view: MatMut<'_, i32> = matrix.as_mat_mut();
        assert_eq!((view.rows(), view.cols()), (3, 4));
        *view.index_mut([1, 3]).unwrap() = 8;
        *view.index_mut([0, 1]).unwrap() += 10;
        assert_eq!(view.as_mat().index([1, 3]), Ok(&8));
        assert_eq!(view.as_mat().index([0, 1]), Ok(&11));
        assert_eq!(view.as_mat().index([2, 2]), Ok(&4));
    }
    assert_eq!((matrix.rows(), matrix.cols()), (3, 4));
    assert_eq!(matrix.index([1, 3]), Ok(&8));
    assert_eq!(matrix.index([0, 1]), Ok(&11));
    assert_eq!(matrix.index([2, 2]), Ok(&4));
    assert_eq!(matrix.index([0, 0]), Ok(&0));
}

#[test]
fn exclusive_view_can_be_copied_out() {
    let mut matrix = sample();
    let view = matrix.as_mat_mut();
    let copy = view.as_mat().to_owned_matrix();
    assert_eq!(copy.index([2, 2]), Ok(&4));
    assert_eq!((copy.rows(), copy.cols()), (3, 4));
}

#[test]
fn dimensions_past_half_a_word_are_refused() {
    assert_eq!(Matrix::<u8>::new(limit(), 1).err(), Some(Error::Range));
    assert_eq!(Matrix::<u8>::new(1, limit()).err(), Some(Error::Range));
    assert_eq!(Matrix::<u8>::new(limit(), limit()).err(), Some(Error::Range));
    assert_eq!(Matrix::<u8>::new(usize::MAX, 0).err(), Some(Error::Range));
    assert_eq!(Matrix::<u8>::new(0, usize::MAX).err(), Some(Error::Range));
    assert_eq!(Matrix::<u64>::new(usize::MAX, usize::MAX).err(), Some(Error::Range));
}

#[test]
fn largest_dimension_is_accepted() {
    let tall: Matrix<u8> = Matrix::new(limit() - 1, 0).unwrap();
    assert_eq!((tall.rows(), tall.cols()), (limit() - 1, 0));
    assert_eq!(tall.index([0, 0]), Err(Error::Bounds));
}
