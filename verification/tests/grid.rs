use gridmat::Matrix;
use gridmat::MatrixError;

fn bits(v: f64) -> u64 {
    v.to_bits()
}

#[test]
fn fresh_grid_reads_zero() {
    let m = Matrix::new(3, 4).unwrap();
    assert_eq!(m.row(), 3);
    assert_eq!(m.col(), 4);
    for i in 0..3 {
        for j in 0..4 {
            let got = m.get(i, j).unwrap();
            assert_eq!(got, bits(0.0));
            assert_eq!(f64::from_bits(got), 0.0);
        }
    }
}

#[test]
fn write_read_round_trip() {
    let mut m = Matrix::new(3, 3).unwrap();
    let v = 2.15f64;
    assert_eq!(m.set(1, 2, bits(v)), Ok(()));
    assert_eq!(m.get(1, 2), Ok(bits(v)));
    assert_eq!(f64::from_bits(m.get(1, 2).unwrap()), v);
    for i in 0..3 {
        for j in 0..3 {
            if !(i == 1 && j == 2) {
                assert_eq!(m.get(i, j), Ok(bits(0.0)));
            }
        }
    }
}

#[test]
fn write_read_round_trip_negative_zero() {
    let mut m = Matrix::new(2, 2).unwrap();
    assert_eq!(m.set(0, 1, bits(-0.0)), Ok(()));
    assert_eq!(m.get(0, 1), Ok(bits(-0.0)));
    assert_ne!(m.get(0, 1), Ok(bits(0.0)));
}

#[test]
fn write_read_round_trip_extremes() {
    let mut m = Matrix::new(1, 3).unwrap();
    for (j, v) in [f64::MAX, f64::MIN_POSITIVE, -123.456e-300].iter().enumerate() {
        assert_eq!(m.set(0, j, bits(*v)), Ok(()));
        assert_eq!(m.get(0, j), Ok(bits(*v)));
    }
}

#[test]
fn overwrite_keeps_last_value() {
    let mut m = Matrix::new(1, 1).unwrap();
    assert_eq!(m.set(0, 0, bits(1.5)), Ok(()));
    assert_eq!(m.set(0, 0, bits(-7.25)), Ok(()));
    assert_eq!(m.get(0, 0), Ok(bits(-7.25)));
}

fn fill(m: &mut Matrix, rows: &[&[f64]]) {
    for (i, row) in rows.iter().enumerate() {
        for (j, v) in row.iter().enumerate() {
            assert_eq!(m.set(i, j, bits(*v)), Ok(()));
        }
    }
}

#[test]
fn multiply_concrete() {
    let a_rows: [&[f64]; 3] = [
        &[2.15, 1.10, 5.15],
        &[1.25, 2.35, 7.55],
        &[2.44, 3.55, 8.25],
    ];
    let b_rows: [&[f64]; 3] = [&[10.21, 9.22], &[12.15, 7.22], &[1.25, 3.25]];
    let mut a = Matrix::new(3, 3).unwrap();
    let mut b = Matrix::new(3, 2).unwrap();
    fill(&mut a, &a_rows);
    fill(&mut b, &b_rows);

    let c = Matrix::dot(&a, &b).unwrap();
    assert_eq!(c.row(), 3);
    assert_eq!(c.col(), 2);

    // The reference result: a zero accumulator, then one rounded
    // multiply and one rounded add per inner step, left to right.
    for i in 0..3 {
        for j in 0..2 {
            let mut acc = 0.0f64;
            for k in 0..3 {
                acc = acc + a_rows[i][k] * b_rows[k][j];
            }
            assert_eq!(c.get(i, j), Ok(bits(acc)));
        }
    }

    // Row 0 of the product, written out against the documented sums.
    let c00 = f64::from_bits(c.get(0, 0).unwrap());
    let c01 = f64::from_bits(c.get(0, 1).unwrap());
    assert_eq!(c00, 2.15 * 10.21 + 1.10 * 12.15 + 5.15 * 1.25);
    assert_eq!(c01, 2.15 * 9.22 + 1.10 * 7.22 + 5.15 * 3.25);
    assert!((c00 - 41.754).abs() < 0.001);
    assert!((c01 - 44.5025).abs() < 0.001);

    // The operands are unchanged.
    assert_eq!(a.get(2, 2), Ok(bits(8.25)));
    assert_eq!(b.get(2, 1), Ok(bits(3.25)));
}

#[test]
fn multiply_single_cell_exercises_the_kernel() {
    let mut a = Matrix::new(1, 1).unwrap();
    let mut b = Matrix::new(1, 1).unwrap();
    assert_eq!(a.set(0, 0, bits(2.0)), Ok(()));
    assert_eq!(b.set(0, 0, bits(3.0)), Ok(()));
    let c = Matrix::dot(&a, &b).unwrap();
    assert_eq!(c.get(0, 0), Ok(bits(6.0)));
}

#[test]
fn multiply_sums_along_the_inner_dimension() {
    let mut a = Matrix::new(1, 2).unwrap();
    let mut b = Matrix::new(2, 1).unwrap();
    assert_eq!(a.set(0, 0, bits(1.5)), Ok(()));
    assert_eq!(a.set(0, 1, bits(-2.0)), Ok(()));
    assert_eq!(b.set(0, 0, bits(4.0)), Ok(()));
    assert_eq!(b.set(1, 0, bits(0.25)), Ok(()));
    let c = Matrix::dot(&a, &b).unwrap();
    assert_eq!(c.row(), 1);
    assert_eq!(c.col(), 1);
    assert_eq!(c.get(0, 0), Ok(bits(1.5 * 4.0 + (-2.0) * 0.25)));
}

#[test]
fn multiply_by_zero_grid_gives_zero_grid() {
    let mut a = Matrix::new(2, 2).unwrap();
    fill(&mut a, &[&[1.0, 2.0], &[3.0, 4.0]]);
    let z = Matrix::new(2, 2).unwrap();
    let c = Matrix::dot(&a, &z).unwrap();
    for i in 0..2 {
        for j in 0..2 {
            assert_eq!(c.get(i, j), Ok(bits(0.0)));
        }
    }
}

#[test]
fn dimension_mismatch() {
    let a = Matrix::new(3, 3).unwrap();
    let b = Matrix::new(2, 2).unwrap();
    assert_eq!(Matrix::dot(&a, &b).err(), Some(MatrixError::DimensionMismatch));
}

#[test]
fn out_of_bounds_get() {
    let m = Matrix::new(3, 3).unwrap();
    assert_eq!(m.get(3, 0), Err(MatrixError::IndexOutOfBounds));
    assert_eq!(m.get(0, 3), Err(MatrixError::IndexOutOfBounds));
    assert_eq!(m.get(usize::MAX, usize::MAX), Err(MatrixError::IndexOutOfBounds));
}

#[test]
fn out_of_bounds_set_changes_nothing() {
    let mut m = Matrix::new(2, 2).unwrap();
    assert_eq!(m.set(0, 0, bits(5.5)), Ok(()));
    assert_eq!(m.set(2, 0, bits(9.9)), Err(MatrixError::IndexOutOfBounds));
    assert_eq!(m.set(0, 2, bits(9.9)), Err(MatrixError::IndexOutOfBounds));
    assert_eq!(m.get(0, 0), Ok(bits(5.5)));
    assert_eq!(m.get(0, 1), Ok(bits(0.0)));
    assert_eq!(m.get(1, 0), Ok(bits(0.0)));
    assert_eq!(m.get(1, 1), Ok(bits(0.0)));
}

#[test]
fn allocation_failure_on_oversized_shape() {
    assert_eq!(Matrix::new(usize::MAX, 2).err(), Some(MatrixError::AllocationError));
    assert_eq!(Matrix::new(2, usize::MAX).err(), Some(MatrixError::AllocationError));
}

#[test]
fn zero_dimension_grids_are_empty() {
    let m = Matrix::new(0, 5).unwrap();
    assert_eq!(m.row(), 0);
    assert_eq!(m.col(), 5);
    assert_eq!(m.get(0, 0), Err(MatrixError::IndexOutOfBounds));
    assert_eq!(m.render(&Vec::new()), "");

    let n = Matrix::new(4, 0).unwrap();
    assert_eq!(n.row(), 4);
    assert_eq!(n.col(), 0);
    assert_eq!(n.render(&Vec::new()), "\n\n\n\n");
}

fn cell_texts(m: &Matrix) -> Vec<String> {
    let mut cells = Vec::new();
    for i in 0..m.row() {
        for j in 0..m.col() {
            cells.push(format!("{}", f64::from_bits(m.get(i, j).unwrap())));
        }
    }
    cells
}

#[test]
fn render_one_row() {
    let mut m = Matrix::new(1, 2).unwrap();
    assert_eq!(m.set(0, 0, bits(2.15)), Ok(()));
    assert_eq!(m.set(0, 1, bits(1.10)), Ok(()));
    // The natural decimal form of the double written as 1.10 is "1.1".
    assert_eq!(m.render(&cell_texts(&m)), "2.15, 1.1\n");
}

#[test]
fn render_several_rows() {
    let mut m = Matrix::new(2, 2).unwrap();
    fill(&mut m, &[&[0.5, 1.0], &[-2.25, 3.0]]);
    assert_eq!(m.render(&cell_texts(&m)), "0.5, 1\n-2.25, 3\n");
}

#[test]
fn render_single_cell_has_no_separator() {
    let mut m = Matrix::new(1, 1).unwrap();
    assert_eq!(m.set(0, 0, bits(-7.5)), Ok(()));
    assert_eq!(m.render(&cell_texts(&m)), "-7.5\n");
}

#[test]
fn many_grids_come_and_go_safely() {
    for round in 0..200 {
        let mut a = Matrix::new(4, 3).unwrap();
        let mut b = Matrix::new(3, 5).unwrap();
        assert_eq!(a.set(round % 4, round % 3, bits(1.0 + round as f64)), Ok(()));
        assert_eq!(b.set(round % 3, round % 5, bits(2.0)), Ok(()));
        let c = Matrix::dot(&a, &b).unwrap();
        assert_eq!(c.row(), 4);
        assert_eq!(c.col(), 5);
        let kept = vec![a, b, c];
        drop(kept);
    }
}
