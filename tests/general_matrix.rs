use matrixes::matrix::general::GeneralMatrix;
use matrixes::matrix::AsMatrix;

use std::rc::Rc;

#[test]
fn col_major() {
    let m = GeneralMatrix::new_col_major([[1, 2, 3], [4, 5, 6], [7, 8, 9]]);
    assert_eq!(m.at(0, 0), &1);
    assert_eq!(m.at(1, 0), &2);
    assert_eq!(m.at(2, 0), &3);
    assert_eq!(m.at(0, 1), &4);
    assert_eq!(m.at(1, 1), &5);
    assert_eq!(m.at(2, 1), &6);
    assert_eq!(m.at(0, 2), &7);
    assert_eq!(m.at(1, 2), &8);
    assert_eq!(m.at(2, 2), &9);
}

#[test]
fn row_major_only() {
    let m = GeneralMatrix::new_row_major([[1, 2, 3], [4, 5, 6], [7, 8, 9]]);
    assert_eq!(m.at(0, 0), &1);
    assert_eq!(m.at(0, 1), &2);
    assert_eq!(m.at(0, 2), &3);
    assert_eq!(m.at(1, 0), &4);
    assert_eq!(m.at(1, 1), &5);
    assert_eq!(m.at(1, 2), &6);
    assert_eq!(m.at(2, 0), &7);
    assert_eq!(m.at(2, 1), &8);
    assert_eq!(m.at(2, 2), &9);
}

#[test]
fn row_major_not_regular_stack() {
    let m = GeneralMatrix::new_row_major([[1, 2, 3, 4], [5, 6, 7, 8]]);
    let ans = GeneralMatrix::new_col_major([[1, 5], [2, 6], [3, 7], [4, 8]]);
    assert_eq!(m, ans);
}

#[test]
fn row_major_not_regular_boxed() {
    let m = GeneralMatrix::new_row_major([
        [Box::new(1), Box::new(2), Box::new(3), Box::new(4)],
        [Box::new(5), Box::new(6), Box::new(7), Box::new(8)],
    ]);

    let ans = GeneralMatrix::new_col_major([
        [Box::new(1), Box::new(5)],
        [Box::new(2), Box::new(6)],
        [Box::new(3), Box::new(7)],
        [Box::new(4), Box::new(8)],
    ]);

    assert_eq!(m, ans);
}

#[test]
fn row_major_drop() {
    let value_1 = Rc::new(1);
    let value_2 = Rc::new(2);

    let mut m = GeneralMatrix::new_row_major([[value_1, value_2]]);
    assert_eq!(Rc::get_mut(m.at_mut(0, 0)), Some(&mut 1));
    assert_eq!(Rc::get_mut(m.at_mut(0, 1)), Some(&mut 2));

    let weak = Rc::downgrade(m.at(0, 0));
    assert!(weak.upgrade().is_some());

    drop(m);

    assert!(weak.upgrade().is_none());
}

#[test]
fn test_construct_by() {
    let mat = GeneralMatrix::by_value(1);
    let ans = GeneralMatrix::new_col_major([[1; 2]; 3]);

    assert_eq!(mat, ans);
}

#[test]
fn test_construct_by_f() {
    // The generator receives (row, col).
    let mat = GeneralMatrix::by_f(|x, y| x + 2 * y);
    let ans =
        GeneralMatrix::new_row_major([[0, 2, 4, 6], [1, 3, 5, 7], [2, 4, 6, 8], [3, 5, 7, 9]]);

    assert_eq!(mat, ans);
}

#[test]
fn by_f_calls_generator_once_per_cell() {
    let calls = std::cell::Cell::new(0usize);
    let m: GeneralMatrix<3, 2, (usize, usize)> = GeneralMatrix::by_f(|r, c| {
        calls.set(calls.get() + 1);
        (r, c)
    });
    assert_eq!(calls.get(), 6);
    for r in 0..3 {
        for c in 0..2 {
            assert_eq!(m.at(r, c), &(r, c));
        }
    }
}

#[test]
fn row_major_round_trip_rectangular() {
    let rows = [[10, 11, 12, 13, 14], [20, 21, 22, 23, 24], [30, 31, 32, 33, 34]];
    let m = GeneralMatrix::new_row_major(rows);
    for r in 0..3 {
        for c in 0..5 {
            assert_eq!(*m.at(r, c), rows[r][c]);
        }
    }
    assert_eq!(m.size(), (3, 5));
    assert_eq!(GeneralMatrix::<3, 5, i32>::type_size(), (3, 5));
}

#[test]
fn row_major_box_matches_row_major() {
    let boxed = GeneralMatrix::new_row_major_box(Box::new([[1u8, 2], [3, 4], [5, 6]]));
    let plain = GeneralMatrix::new_row_major([[1u8, 2], [3, 4], [5, 6]]);
    assert_eq!(boxed, plain);
    assert_eq!(boxed.inner(), &[1, 3, 5, 2, 4, 6]);
}

#[test]
fn col_major_box_keeps_layout() {
    let m = GeneralMatrix::new_col_major_box(Box::new([[1i64, 2], [3, 4], [5, 6]]));
    assert_eq!(m.inner(), &[1, 2, 3, 4, 5, 6]);
    assert_eq!(m.at(1, 2), &6);
}

#[test]
fn empty_matrices() {
    let m: GeneralMatrix<0, 3, i32> = GeneralMatrix::new_row_major([]);
    assert_eq!(m.inner().len(), 0);
    let n: GeneralMatrix<2, 0, i32> = GeneralMatrix::new_row_major([[], []]);
    assert_eq!(n.inner().len(), 0);
}

#[test]
fn row_major_moves_each_element_once() {
    let cells: Vec<Rc<i32>> = (0..6).map(Rc::new).collect();
    let m = GeneralMatrix::new_row_major([
        [cells[0].clone(), cells[1].clone(), cells[2].clone()],
        [cells[3].clone(), cells[4].clone(), cells[5].clone()],
    ]);
    for c in &cells {
        assert_eq!(Rc::strong_count(c), 2);
    }
    drop(m);
    for c in &cells {
        assert_eq!(Rc::strong_count(c), 1);
    }
}

#[test]
fn at_mut_leaves_siblings_alone() {
    let a = Rc::new(1);
    let b = Rc::new(2);
    let c = Rc::new(3);
    let mut m = GeneralMatrix::new_row_major([[a.clone(), b.clone(), c.clone()]]);
    *m.at_mut(0, 1) = Rc::new(20);
    assert_eq!(Rc::strong_count(&a), 2);
    assert_eq!(Rc::strong_count(&b), 1);
    assert_eq!(Rc::strong_count(&c), 2);
    assert_eq!(**m.at(0, 0), 1);
    assert_eq!(**m.at(0, 1), 20);
    assert_eq!(**m.at(0, 2), 3);
}

#[test]
fn inner_mut_writes_through() {
    let mut m = GeneralMatrix::new_row_major([[1, 2], [3, 4]]);
    m.inner_mut()[1] = 30;
    assert_eq!(m.at(1, 0), &30);
    assert_eq!(m.inner(), &[1, 30, 2, 4]);
}

#[test]
fn test_zero() {
    let x = GeneralMatrix::zero();
    let ans = GeneralMatrix::new_row_major([[0; 4]; 4]);

    assert_eq!(x, ans);
}
